use devin_process::buffer::BoundedBuffer;

#[test]
fn window_keeps_the_last_bytes() {
    let mut buffer = BoundedBuffer::new(4);
    assert_eq!(buffer.snapshot(None), (String::new(), 0, false));
    buffer.append(b"abc");
    assert_eq!(buffer.snapshot(None), ("abc".to_string(), 0, false));
    assert!(!buffer.truncated());
    buffer.append(b"def");
    assert_eq!(buffer.snapshot(None), ("cdef".to_string(), 2, false));
    assert!(buffer.truncated());
    assert_eq!(buffer.total_bytes(), 6);
    buffer.append(b"0123456789");
    assert_eq!(buffer.snapshot(None), ("6789".to_string(), 12, false));
}

#[test]
fn exact_fit_is_not_truncated() {
    let mut buffer = BoundedBuffer::new(3);
    buffer.append(b"abc");
    assert!(!buffer.truncated());
    buffer.append(b"");
    assert!(!buffer.truncated());
}

#[test]
fn capacity_of_zero_counts_as_one() {
    let mut buffer = BoundedBuffer::new(0);
    buffer.append(b"ab");
    assert_eq!(buffer.snapshot(None), ("b".to_string(), 1, false));
}

#[test]
fn reads_start_at_the_requested_offset() {
    let mut buffer = BoundedBuffer::new(4);
    buffer.append(b"abcdef");
    assert_eq!(buffer.snapshot(Some(0)), ("cdef".to_string(), 2, true));
    assert_eq!(buffer.snapshot(Some(2)), ("cdef".to_string(), 2, false));
    assert_eq!(buffer.snapshot(Some(5)), ("f".to_string(), 5, false));
    assert_eq!(buffer.snapshot(Some(6)), (String::new(), 6, false));
    assert_eq!(buffer.snapshot(Some(u64::MAX)), (String::new(), 6, false));
    assert_eq!(buffer.window(Some(3)), (b"def".to_vec(), 3, false));
}

#[test]
fn reads_continue_where_the_last_ended() {
    let mut buffer = BoundedBuffer::new(8);
    buffer.append(b"one");
    let (first, _, _) = buffer.snapshot(Some(0));
    let seen = buffer.total_bytes();
    buffer.append(b"two");
    let (second, offset, gap) = buffer.snapshot(Some(seen));
    assert_eq!(first + &second, "onetwo");
    assert_eq!(offset, 3);
    assert!(!gap);
}

#[test]
fn invalid_bytes_are_replaced() {
    let mut buffer = BoundedBuffer::new(8);
    buffer.append(&[b'a', 0xff, b'b']);
    assert_eq!(buffer.snapshot(None).0, "a\u{fffd}b");
    let mut cut = BoundedBuffer::new(1);
    cut.append("é".as_bytes());
    assert_eq!(cut.snapshot(None), ("\u{fffd}".to_string(), 1, false));
    let mut whole = BoundedBuffer::new(2);
    whole.append("é".as_bytes());
    assert_eq!(whole.snapshot(None).0, "é");
}
