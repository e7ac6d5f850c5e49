use arrow_core::buffer::{Buffer, MutableBuffer};
use arrow_core::error::ArrowError;

#[test]
fn test_buffer_data_equality() {
    let buf1 = Buffer::from_slice(&[0, 1, 2, 3, 4]);
    let mut buf2 = Buffer::from_slice(&[0, 1, 2, 3, 4]);
    assert_eq!(buf1, buf2);

    // slice with same offset should still preserve equality
    let buf3 = buf1.slice(2);
    assert_ne!(buf1, buf3);
    let buf4 = buf2.slice(2);
    assert_eq!(buf3, buf4);

    // unequal because of different elements
    buf2 = Buffer::from_slice(&[0, 0, 2, 3, 4]);
    assert_ne!(buf1, buf2);

    // unequal because of different length
    buf2 = Buffer::from_slice(&[0, 1, 2, 3]);
    assert_ne!(buf1, buf2);
}

#[test]
fn test_from_vec() {
    let buf = Buffer::from_slice(&[0, 1, 2, 3, 4]);
    assert_eq!(5, buf.len());
    assert_eq!(&[0, 1, 2, 3, 4], buf.data());
}

#[test]
fn test_copy() {
    let buf = Buffer::from_slice(&[0, 1, 2, 3, 4]);
    let buf2 = buf.clone();
    assert_eq!(5, buf2.len());
    assert_eq!(&[0, 1, 2, 3, 4], buf2.data());
}

#[test]
fn test_slice() {
    let buf = Buffer::from_slice(&[2, 4, 6, 8, 10]);
    let buf2 = buf.slice(2);

    assert_eq!(&[6, 8, 10], buf2.data());
    assert_eq!(3, buf2.len());

    let buf3 = buf2.slice(1);
    assert_eq!(&[8, 10], buf3.data());
    assert_eq!(2, buf3.len());

    let buf4 = buf.slice(5);
    let empty_slice: [u8; 0] = [];
    assert_eq!(empty_slice, buf4.data());
    assert_eq!(0, buf4.len());
    assert!(buf4.is_empty());
}

#[test]
fn test_empty_buffer() {
    let buf = Buffer::empty();
    assert_eq!(0, buf.len());
    assert!(buf.is_empty());
    assert_eq!(0, buf.data().len());
}

#[test]
fn test_mutable_new() {
    let buf = MutableBuffer::new(63);
    assert_eq!(64, buf.capacity());
    assert_eq!(0, buf.len());
    assert!(buf.is_empty());
}

#[test]
fn test_mutable_write() {
    let mut buf = MutableBuffer::new(100);
    buf.write("hello".as_bytes()).expect("Ok");
    assert_eq!(5, buf.len());
    assert_eq!("hello".as_bytes(), buf.data());

    buf.write(" world".as_bytes()).expect("Ok");
    assert_eq!(11, buf.len());
    assert_eq!("hello world".as_bytes(), buf.data());

    buf.clear();
    assert_eq!(0, buf.len());
    buf.write("hello arrow".as_bytes()).expect("Ok");
    assert_eq!(11, buf.len());
    assert_eq!("hello arrow".as_bytes(), buf.data());
}

#[test]
fn test_mutable_write_insufficient_capacity() {
    let mut buf = MutableBuffer::new(1);
    assert_eq!(64, buf.capacity());
    let big = [0u8; 65];
    let result = buf.write(&big);
    assert!(matches!(result, Err(ArrowError::MemoryError(_))));
    // a failed write changes nothing
    assert_eq!(0, buf.len());
}

#[test]
fn test_mutable_resize() {
    let mut buf = MutableBuffer::new(1);
    assert_eq!(64, buf.capacity());

    // resizing to a smaller value should have no effect.
    buf.resize(10).expect("resize should be OK");
    assert_eq!(64, buf.capacity());

    buf.resize(100).expect("resize should be OK");
    assert_eq!(128, buf.capacity());
}

#[test]
fn test_mutable_freeze() {
    let mut buf = MutableBuffer::new(1);
    buf.write("aaaa bbbb cccc dddd".as_bytes())
        .expect("write should be OK");
    assert_eq!(19, buf.len());
    assert_eq!("aaaa bbbb cccc dddd".as_bytes(), buf.data());

    let immutable_buf = buf.freeze();
    assert_eq!(19, immutable_buf.len());
    assert_eq!("aaaa bbbb cccc dddd".as_bytes(), immutable_buf.data());
}

#[test]
fn test_mutable_set_null_bits() {
    let mut buf = MutableBuffer::new(8);
    buf.write(&[0xffu8; 8]).expect("Ok");
    buf.set_null_bits(2, 4);
    assert_eq!(&[0xff, 0xff, 0, 0, 0, 0, 0xff, 0xff], buf.data());
}
