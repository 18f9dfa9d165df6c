use ublox_sockets::RingBuffer;

#[test]
fn new_ring_is_empty() {
    let mut storage = [0u8; 5];
    let ring = RingBuffer::new(&mut storage[..]);
    assert_eq!(ring.capacity(), 5);
    assert_eq!(ring.len(), 0);
    assert_eq!(ring.window(), 5);
    assert_eq!(ring.contiguous_window(), 5);
    assert!(ring.is_empty());
    assert!(!ring.is_full());
}

#[test]
fn ring_without_storage_is_empty_and_full() {
    let mut ring: RingBuffer<u8> = RingBuffer::from(&mut [][..]);
    assert!(ring.is_empty());
    assert!(ring.is_full());
    assert_eq!(ring.enqueue_slice(&[1, 2]), 0);
    let mut out = [9u8; 2];
    assert_eq!(ring.dequeue_slice(&mut out), 0);
    assert_eq!(out, [9, 9]);
    assert_eq!(ring.get_allocated(0, 4), &[] as &[u8]);
}

#[test]
fn ring_is_first_in_first_out() {
    let mut storage = [0u8; 4];
    let mut ring = RingBuffer::new(&mut storage[..]);
    assert_eq!(ring.enqueue_slice(&[1, 2, 3]), 3);
    assert_eq!(ring.len(), 3);
    let mut out = [0u8; 2];
    assert_eq!(ring.dequeue_slice(&mut out), 2);
    assert_eq!(out, [1, 2]);
    assert_eq!(ring.enqueue_slice(&[4, 5, 6, 7]), 3);
    assert!(ring.is_full());
    let mut out = [0u8; 8];
    assert_eq!(ring.dequeue_slice(&mut out), 4);
    assert_eq!(out, [3, 4, 5, 6, 0, 0, 0, 0]);
    assert!(ring.is_empty());
}

#[test]
fn ring_pieces_join() {
    let mut one = [0u8; 6];
    let mut ring = RingBuffer::new(&mut one[..]);
    assert_eq!(ring.enqueue_slice(&[1, 2, 3, 4]), 4);
    assert_eq!(ring.enqueue_slice(&[5, 6, 7]), 2);
    let mut two = [0u8; 6];
    let mut other = RingBuffer::new(&mut two[..]);
    assert_eq!(other.enqueue_slice(&[1, 2, 3, 4, 5, 6, 7]), 6);
    assert_eq!(ring.get_allocated(0, 6), other.get_allocated(0, 6));
    assert_eq!(ring.get_allocated(0, 6), &[1, 2, 3, 4, 5, 6]);
}

#[test]
fn ring_hands_out_contiguous_runs() {
    let mut storage = [0u8; 4];
    let mut ring = RingBuffer::new(&mut storage[..]);
    ring.enqueue_slice(&[1, 2, 3]);
    ring.advance(2);
    // The queue is [3] at place 2, one place is left before the end and two at the start.
    assert_eq!(ring.contiguous_window(), 1);
    assert_eq!(ring.window(), 3);
    let (n, seen) = ring.enqueue_many_with(|run| {
        run[0] = 4;
        (1, run.len())
    });
    assert_eq!((n, seen), (1, 1));
    let (n, seen) = ring.enqueue_many_with(|run| {
        run[0] = 5;
        run[1] = 99;
        (1, run.len())
    });
    assert_eq!((n, seen), (1, 2));
    // What was written but not enqueued does not show.
    let (n, front) = ring.dequeue_many_with(|run| (1, run.to_vec()));
    assert_eq!((n, front), (1, vec![3, 4]));
    let (n, front) = ring.dequeue_many_with(|run| (1, run.to_vec()));
    assert_eq!((n, front), (1, vec![4]));
    let (n, front) = ring.dequeue_many_with(|run| (1, run.to_vec()));
    assert_eq!((n, front), (1, vec![5]));
    assert!(ring.is_empty());
}

#[test]
fn ring_restarts_when_empty() {
    let mut storage = [0u8; 4];
    let mut ring = RingBuffer::new(&mut storage[..]);
    ring.enqueue_slice(&[1, 2, 3]);
    ring.advance(3);
    let (_, seen) = ring.enqueue_many_with(|run| (0, run.len()));
    assert_eq!(seen, 4);
    ring.enqueue_slice(&[4, 5, 6, 7]);
    assert_eq!(ring.get_allocated(0, 4), &[4, 5, 6, 7]);
}

#[test]
fn ring_front_can_be_rewritten() {
    let mut storage = [0u8; 4];
    let mut ring = RingBuffer::new(&mut storage[..]);
    ring.enqueue_slice(&[1, 2, 3]);
    let front = ring.front_mut();
    assert_eq!(front, &[1, 2, 3]);
    front[1] = 9;
    assert_eq!(ring.get_allocated(0, 3), &[1, 9, 3]);
    ring.advance(1);
    assert_eq!(ring.get_allocated(0, 3), &[9, 3]);
}

#[test]
fn ring_allocated_is_a_stretch_of_the_queue() {
    let mut storage = [0u8; 4];
    let mut ring = RingBuffer::new(&mut storage[..]);
    ring.enqueue_slice(&[0, 0, 1, 2]);
    ring.advance(2);
    ring.enqueue_slice(&[3, 4]);
    assert_eq!(ring.get_allocated(0, 1), &[1]);
    assert_eq!(ring.get_allocated(0, 9), &[1, 2]);
    assert_eq!(ring.get_allocated(1, 9), &[2]);
    assert_eq!(ring.get_allocated(2, 9), &[3, 4]);
    assert_eq!(ring.get_allocated(3, 1), &[4]);
    assert_eq!(ring.get_allocated(5, 1), &[] as &[u8]);
}

#[test]
fn cleared_ring_is_empty() {
    let mut storage = [0u8; 4];
    let mut ring = RingBuffer::new(&mut storage[..]);
    ring.enqueue_slice(&[1, 2, 3]);
    ring.advance(1);
    ring.clear();
    assert!(ring.is_empty());
    assert_eq!(ring.capacity(), 4);
    assert_eq!(ring.contiguous_window(), 4);
}

#[test]
fn ring_peek_slice_keeps_the_elements() {
    let mut storage = [0u8; 4];
    let mut ring = RingBuffer::new(&mut storage[..]);
    ring.enqueue_slice(&[0, 0, 0, 1]);
    ring.advance(3);
    ring.enqueue_slice(&[2, 3]);
    let mut out = [9u8; 5];
    assert_eq!(ring.peek_slice(&mut out), 3);
    assert_eq!(out, [1, 2, 3, 9, 9]);
    let mut out = [9u8; 2];
    assert_eq!(ring.peek_slice(&mut out), 2);
    assert_eq!(out, [1, 2]);
    assert_eq!(ring.len(), 3);
}
