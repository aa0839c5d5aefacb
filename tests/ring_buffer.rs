use key_stream::ring_buffer::{RingBuffer, BUFFER_SIZE};

#[test]
fn test_push_peek() {
    let mut buf = RingBuffer::new(0u8);
    buf.push(&1);
    assert_eq!(buf.peek(0), Some(1));
    assert_eq!(buf.peek(1), None);
    buf.consume();
    assert_eq!(buf.peek(0), None);
}

#[test]
fn test_push_peek_multi() {
    let mut buf = RingBuffer::new(0u8);
    buf.push(&1);
    buf.push(&2);
    buf.push(&3);
    assert_eq!(buf.peek(0), Some(1));
    assert_eq!(buf.peek(1), Some(2));
    assert_eq!(buf.peek(2), Some(3));
    assert_eq!(buf.peek(3), None);
    buf.consume();
    assert_eq!(buf.peek(0), Some(2));
}

#[test]
fn test_go_around() {
    let mut buf = RingBuffer::new(0u8);
    for i in 0..BUFFER_SIZE - 2 {
        buf.push(&(i as u8));
        buf.consume();
    }
    buf.push(&1);
    buf.push(&2);
    buf.push(&3);
    assert_eq!(buf.peek(0), Some(1));
    assert_eq!(buf.peek(1), Some(2));
    assert_eq!(buf.peek(2), Some(3));
    assert_eq!(buf.peek(3), None);
    buf.consume();
    assert_eq!(buf.peek(0), Some(2));
}

#[test]
fn consume_on_empty_buffer_is_a_no_op() {
    let mut buf = RingBuffer::new(7u8);
    buf.consume();
    assert_eq!(buf.peek(0), None);
    buf.push(&9);
    assert_eq!(buf.peek(0), Some(9));
}

#[test]
fn buffer_holds_one_less_than_its_size() {
    let mut buf = RingBuffer::new(0u8);
    for i in 0..BUFFER_SIZE - 1 {
        buf.push(&(i as u8));
    }
    assert_eq!(buf.peek(0), Some(0));
    assert_eq!(buf.peek(BUFFER_SIZE - 2), Some((BUFFER_SIZE - 2) as u8));
    assert_eq!(buf.peek(BUFFER_SIZE - 1), None);
}

#[test]
fn overrun_drops_every_unread_item() {
    let mut buf = RingBuffer::new(0u8);
    for i in 0..BUFFER_SIZE {
        buf.push(&(i as u8));
    }
    assert_eq!(buf.peek(0), None);
    buf.push(&200);
    assert_eq!(buf.peek(0), Some(200));
    assert_eq!(buf.peek(1), None);
}
