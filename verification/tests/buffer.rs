use f042_ftdi::buffer::Buffer;

#[test]
fn new_buffer_is_empty() {
    let b = Buffer::new(8);
    assert_eq!(b.available_read(), 0);
    assert_eq!(b.available_write(), 8);
    assert!(b.unread().is_empty());
}

#[test]
fn write_all_appends_in_order() {
    let mut b = Buffer::new(8);
    assert_eq!(b.write_all(&[1, 2, 3]), 3);
    assert_eq!(b.write_all(&[4, 5]), 2);
    assert_eq!(b.unread(), &[1, 2, 3, 4, 5]);
    assert_eq!(b.available_read() + b.available_write(), 8);
}

#[test]
fn write_all_that_does_not_fit_writes_nothing() {
    let mut b = Buffer::new(4);
    assert_eq!(b.write_all(&[1, 2, 3]), 3);
    assert_eq!(b.write_all(&[4, 5]), 0);
    assert_eq!(b.unread(), &[1, 2, 3]);
}

#[test]
fn write_all_moves_unread_bytes_to_the_front() {
    let mut b = Buffer::new(4);
    assert_eq!(b.write_all(&[1, 2, 3, 4]), 4);
    b.consume(3);
    assert_eq!(b.available_write(), 3);
    assert_eq!(b.write_all(&[5, 6, 7]), 3);
    assert_eq!(b.unread(), &[4, 5, 6, 7]);
    assert_eq!(b.available_write(), 0);
}

#[test]
fn consume_takes_the_oldest_bytes() {
    let mut b = Buffer::new(8);
    b.write_all(&[9, 8, 7]);
    b.consume(2);
    assert_eq!(b.unread(), &[7]);
    assert_eq!(b.available_read(), 1);
}

#[test]
fn clear_empties_the_buffer() {
    let mut b = Buffer::new(8);
    b.write_all(&[1, 2, 3]);
    b.clear();
    assert_eq!(b.available_read(), 0);
    assert_eq!(b.available_write(), 8);
}

#[test]
fn zero_length_write_always_succeeds() {
    let mut b = Buffer::new(0);
    assert_eq!(b.write_all(&[]), 0);
    assert_eq!(b.write_all(&[1]), 0);
    assert_eq!(b.available_read(), 0);
}
