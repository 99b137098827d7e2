use kernel_core::circular_buffer::CircularBuffer;

#[test]
fn circular_buffer() {
    let mut buf = CircularBuffer::new(4);
    assert_eq!(None, buf.read());

    buf.write(1);
    buf.write(2);
    buf.write(3);

    assert_eq!(Some(1), buf.read());
    assert_eq!(Some(2), buf.read());
    assert_eq!(Some(3), buf.read());
    assert_eq!(None, buf.read());

    for _ in 0..8 {
        buf.write(1);
        assert_eq!(Some(1), buf.read());
    }

    buf.write(2);
    buf.write(3);
    buf.write(4);
    buf.write(5);
    buf.write(6);

    assert_eq!(Some(4), buf.read());
    assert_eq!(Some(5), buf.read());
    assert_eq!(Some(6), buf.read());
    assert_eq!(None, buf.read());
    assert_eq!(None, buf.read());
    assert_eq!(None, buf.read());
    assert_eq!(None, buf.read());
}

#[test]
fn overwrite_discards_the_oldest() {
    let mut buf = CircularBuffer::new(4);
    for v in 1..=6 {
        buf.write(v);
    }
    assert_eq!(Some(4), buf.read());
    assert_eq!(Some(5), buf.read());
    assert_eq!(Some(6), buf.read());
    assert_eq!(None, buf.read());
}

#[test]
fn empty_reads_stay_empty() {
    let mut buf: CircularBuffer<u8> = CircularBuffer::new(3);
    for _ in 0..10 {
        assert_eq!(None, buf.read());
    }
    buf.write(9);
    assert_eq!(Some(9), buf.read());
    for _ in 0..10 {
        assert_eq!(None, buf.read());
    }
}

#[test]
fn single_slot_buffer_holds_nothing() {
    let mut buf = CircularBuffer::new(1);
    buf.write(5);
    assert_eq!(None, buf.read());
}

#[test]
fn values_are_moved_out() {
    let mut buf = CircularBuffer::new(3);
    buf.write(String::from("a"));
    buf.write(String::from("b"));
    assert_eq!(Some(String::from("a")), buf.read());
    buf.write(String::from("c"));
    assert_eq!(Some(String::from("b")), buf.read());
    assert_eq!(Some(String::from("c")), buf.read());
    assert_eq!(None, buf.read());
}
