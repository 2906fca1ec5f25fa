use usque::manager::buffer::TcpRingBuffer;

#[test]
fn ring_buffer_wraps_without_losing_order() {
    let mut buf = TcpRingBuffer::new(8);
    let mut out = [0u8; 8];

    assert_eq!(buf.enqueue_slice(b"abcdef"), 6);
    assert_eq!(buf.dequeue_slice(&mut out[..4]), 4);
    assert_eq!(&out[..4], b"abcd");

    assert_eq!(buf.enqueue_slice(b"ghij"), 4);
    assert_eq!(buf.len(), 6);
    assert_eq!(buf.dequeue_slice(&mut out[..6]), 6);
    assert_eq!(&out[..6], b"efghij");
    assert!(buf.is_empty());
}

#[test]
fn ring_buffer_peek_and_consume_match_dequeue() {
    let mut buf = TcpRingBuffer::new(8);
    let mut out = [0u8; 8];
    let mut peek = [0u8; 3];

    buf.enqueue_slice(b"hello");
    assert_eq!(buf.peek_copy(&mut peek), 3);
    assert_eq!(&peek, b"hel");
    buf.consume(3);
    assert_eq!(buf.dequeue_slice(&mut out[..2]), 2);
    assert_eq!(&out[..2], b"lo");
    assert!(buf.is_empty());
}

#[test]
fn ring_buffer_respects_capacity() {
    let mut buf = TcpRingBuffer::new(4);
    let mut out = [0u8; 8];

    assert_eq!(buf.enqueue_slice(b"abcdef"), 3);
    assert_eq!(buf.remaining_capacity(), 0);
    assert_eq!(buf.dequeue_slice(&mut out), 3);
    assert_eq!(&out[..3], b"abc");
}

#[test]
fn ring_buffer_is_full_at_its_limit() {
    let mut buf = TcpRingBuffer::new(4);
    assert!(!buf.is_full());
    buf.enqueue_slice(b"abc");
    assert!(buf.is_full());
    assert_eq!(buf.enqueue_slice(b"d"), 0);
    buf.consume(100);
    assert!(buf.is_empty());
}

#[test]
fn whatever_goes_in_comes_out_in_order() {
    let mut buf = TcpRingBuffer::new(6);
    let mut went_in: Vec<u8> = Vec::new();
    let mut came_out: Vec<u8> = Vec::new();
    let mut next = 0u8;
    for round in 0..40usize {
        let data: Vec<u8> = (0..round % 7).map(|i| next.wrapping_add(i as u8)).collect();
        let n = buf.enqueue_slice(&data);
        went_in.extend_from_slice(&data[..n]);
        next = next.wrapping_add(n as u8);
        let mut out = vec![0u8; round % 4];
        let n = buf.dequeue_slice(&mut out);
        came_out.extend_from_slice(&out[..n]);
    }
    let mut rest = [0u8; 8];
    let n = buf.dequeue_slice(&mut rest);
    came_out.extend_from_slice(&rest[..n]);
    assert_eq!(came_out, went_in);
    assert!(went_in.len() > 20);
}
