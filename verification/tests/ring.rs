use local_storage_vec::RingBuffer;

#[test]
fn test_read_from_zero_capacity() {
    let mut ring = RingBuffer::new(0);
    assert_eq!(ring.read(), None);
}

#[test]
fn test_write_to_zero_capacity() {
    let mut ring = RingBuffer::new(0);
    assert!(!ring.write(10));
}

#[test]
fn test_read_from_empty_ring_buffer() {
    let mut ring = RingBuffer::new(10);
    assert_eq!(ring.read(), None);
}

#[test]
fn test_read_from_non_empty_ring_buffer() {
    let mut ring = RingBuffer::new(10);
    assert!(ring.write(1));
    assert_eq!(ring.read(), Some(1));
}

#[test]
fn test_write_to_full_ring_buffer() {
    let mut ring = RingBuffer::new(2);
    assert!(ring.write(1));
    assert!(!ring.write(2));
}

#[test]
fn values_come_out_in_write_order() {
    let mut ring = RingBuffer::new(10);
    assert!(ring.write(1));
    assert!(ring.write(2));
    assert!(ring.write(3));
    assert_eq!(ring.read(), Some(1));
    assert_eq!(ring.read(), Some(2));
    assert_eq!(ring.read(), Some(3));
    assert_eq!(ring.read(), None);
}

#[test]
fn wraparound_keeps_order() {
    let mut ring = RingBuffer::new(4);
    assert!(ring.write(1));
    assert!(ring.write(2));
    assert!(ring.write(3));
    assert_eq!(ring.read(), Some(1));
    assert_eq!(ring.read(), Some(2));
    assert!(ring.write(4));
    assert!(ring.write(5));
    assert_eq!(ring.read(), Some(3));
    assert_eq!(ring.read(), Some(4));
    assert_eq!(ring.read(), Some(5));
    assert_eq!(ring.read(), None);
}

#[test]
fn size_n_holds_n_minus_one_values() {
    let mut ring = RingBuffer::new(4);
    assert!(ring.write(1));
    assert!(ring.write(2));
    assert!(ring.write(3));
    assert!(!ring.write(4));
}

#[test]
fn peek_leaves_the_value_in_place() {
    let mut ring = RingBuffer::new(10);
    assert_eq!(ring.peek(), None);
    assert!(ring.write(7));
    assert_eq!(ring.peek(), Some(7));
    assert_eq!(ring.peek(), Some(7));
    assert_eq!(ring.read(), Some(7));
    assert_eq!(ring.peek(), None);
}

#[test]
fn has_room_goes_by_a_length_of_one() {
    let mut ring = RingBuffer::new(4);
    assert!(ring.has_room());
    assert!(ring.write(1));
    assert!(!ring.has_room());
    assert!(ring.write(2));
    assert!(ring.has_room());
}

#[test]
fn next_reads_like_a_loop_step() {
    let mut ring = RingBuffer::new(10);
    assert!(ring.write(1));
    assert!(ring.write(2));
    assert_eq!(ring.next(), Some(1));
    assert_eq!(ring.next(), Some(2));
    assert_eq!(ring.next(), None);
}

#[test]
fn make_box_is_zero_filled() {
    let b = local_storage_vec::make_box(5);
    assert_eq!(b.len(), 5);
    assert!(b.iter().all(|&x| x == 0));
}
