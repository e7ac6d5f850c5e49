use arrow_core::array::{BooleanArray, ListArray, PrimitiveArray};
use arrow_core::buffer::Buffer;
use arrow_core::builder::{
    ArrayBuilder, BooleanBufferBuilder, BufferBuilder, ListArrayBuilder, PrimitiveArrayBuilder,
};
use arrow_core::datatypes::{DataType, ToByteSlice};

#[test]
fn test_builder_i32_empty() {
    let b = BufferBuilder::<i32>::new(5);
    assert_eq!(0, b.len());
    assert_eq!(16, b.capacity());
    let a = b.finish();
    assert_eq!(0, a.len());
}

#[test]
fn test_builder_i32_alloc_zero_bytes() {
    let mut b = BufferBuilder::<i32>::new(0);
    b.push(123).unwrap();
    let a = b.finish();
    assert_eq!(4, a.len());
}

#[test]
fn test_builder_i32() {
    let mut b = BufferBuilder::<i32>::new(5);
    for i in 0..5 {
        b.push(i).unwrap();
    }
    assert_eq!(16, b.capacity());
    let a = b.finish();
    assert_eq!(20, a.len());
}

#[test]
fn test_builder_i32_grow_buffer() {
    let mut b = BufferBuilder::<i32>::new(2);
    assert_eq!(16, b.capacity());
    for i in 0..20 {
        b.push(i).unwrap();
    }
    assert_eq!(32, b.capacity());
    let a = b.finish();
    assert_eq!(80, a.len());
}

#[test]
fn test_reserve() {
    let mut b = BufferBuilder::<u8>::new(2);
    assert_eq!(64, b.capacity());
    b.reserve(64).unwrap();
    assert_eq!(64, b.capacity());
    b.reserve(65).unwrap();
    assert_eq!(128, b.capacity());

    let mut b = BufferBuilder::<i32>::new(2);
    assert_eq!(16, b.capacity());
    b.reserve(16).unwrap();
    assert_eq!(16, b.capacity());
    b.reserve(17).unwrap();
    assert_eq!(32, b.capacity());
}

#[test]
fn test_push_slice() {
    let mut b = BufferBuilder::<u8>::new(0);
    b.push_slice("Hello, ".as_bytes()).unwrap();
    b.push_slice("World!".as_bytes()).unwrap();
    let buffer = b.finish();
    assert_eq!(13, buffer.len());

    let mut b = BufferBuilder::<i32>::new(0);
    b.push_slice(&[32, 54]).unwrap();
    let buffer = b.finish();
    assert_eq!(8, buffer.len());
}

#[test]
fn test_builder_finish_contents() {
    let mut b = BufferBuilder::<i32>::new(0);
    b.push(1).unwrap();
    b.push_slice(&[2, 3]).unwrap();
    let buf = b.finish();
    assert_eq!(buf.data(), &[1, 0, 0, 0, 2, 0, 0, 0, 3, 0, 0, 0]);
}

#[test]
fn test_builder_advance() {
    let mut b = BufferBuilder::<i32>::new(2);
    b.push(7).unwrap();
    b.advance(2).unwrap();
    assert_eq!(3, b.len());
    let buf = b.finish();
    assert_eq!(12, buf.len());
}

#[test]
fn test_write_bytes() {
    let mut b = BooleanBufferBuilder::new(4);
    b.push(false).unwrap();
    b.push(true).unwrap();
    b.push(false).unwrap();
    b.push(true).unwrap();
    assert_eq!(4, b.len());
    assert_eq!(512, b.capacity());
    let buffer = b.finish();
    assert_eq!(1, buffer.len());

    let mut b = BooleanBufferBuilder::new(4);
    b.push_slice(&[false, true, false, true]).unwrap();
    assert_eq!(4, b.len());
    assert_eq!(512, b.capacity());
    let buffer = b.finish();
    assert_eq!(1, buffer.len());
}

#[test]
fn test_write_bytes_i32() {
    let mut b = BufferBuilder::<i32>::new(4);
    let bytes = [8, 16, 32, 64].to_byte_slice();
    b.write_bytes(&bytes, 4).unwrap();
    assert_eq!(4, b.len());
    assert_eq!(16, b.capacity());
    let buffer = b.finish();
    assert_eq!(16, buffer.len());
}

#[test]
fn test_boolean_builder_increases_buffer_len() {
    // 00000010 01001000
    let buf = Buffer::from_slice(&[72_u8, 2_u8]);
    let mut builder = BooleanBufferBuilder::new(8);

    for i in 0..10 {
        if i == 3 || i == 6 || i == 9 {
            builder.push(true).unwrap();
        } else {
            builder.push(false).unwrap();
        }
    }
    let buf2 = builder.finish();

    assert_eq!(buf.len(), buf2.len());
    assert_eq!(buf.data(), buf2.data());
}

#[test]
fn test_primitive_array_builder_i32() {
    let mut builder = PrimitiveArray::<i32>::builder(5);
    for i in 0..5 {
        builder.push(i).unwrap();
    }
    let arr = builder.finish();
    assert_eq!(5, arr.len());
    assert_eq!(0, arr.offset());
    assert_eq!(0, arr.null_count());
    for i in 0..5 {
        assert!(!arr.is_null(i));
        assert!(arr.is_valid(i));
        assert_eq!(i as i32, arr.value(i));
    }
}

#[test]
fn test_primitive_array_builder_bool() {
    // 00000010 01001000
    let buf = Buffer::from_slice(&[72_u8, 2_u8]);
    let mut builder = BooleanArray::builder(10);
    for i in 0..10 {
        if i == 3 || i == 6 || i == 9 {
            builder.push(true).unwrap();
        } else {
            builder.push(false).unwrap();
        }
    }

    let arr = builder.finish();
    assert_eq!(buf, arr.values());
    assert_eq!(10, arr.len());
    assert_eq!(0, arr.offset());
    assert_eq!(0, arr.null_count());
    for i in 0..10 {
        assert!(!arr.is_null(i));
        assert!(arr.is_valid(i));
        assert_eq!(i == 3 || i == 6 || i == 9, arr.value(i), "failed at {}", i)
    }
}

#[test]
fn test_primitive_array_builder_push_option() {
    let arr1 = PrimitiveArray::<i32>::from(vec![Some(0), None, Some(2), None, Some(4)]);

    let mut builder = PrimitiveArray::<i32>::builder(5);
    builder.push_option(Some(0)).unwrap();
    builder.push_option(None).unwrap();
    builder.push_option(Some(2)).unwrap();
    builder.push_option(None).unwrap();
    builder.push_option(Some(4)).unwrap();
    let arr2 = builder.finish();

    assert_eq!(arr1.len(), arr2.len());
    assert_eq!(arr1.offset(), arr2.offset());
    assert_eq!(arr1.null_count(), arr2.null_count());
    for i in 0..5 {
        assert_eq!(arr1.is_null(i), arr2.is_null(i));
        assert_eq!(arr1.is_valid(i), arr2.is_valid(i));
        if arr1.is_valid(i) {
            assert_eq!(arr1.value(i), arr2.value(i));
        }
    }
}

#[test]
fn test_primitive_array_builder_push_null() {
    let arr1 = PrimitiveArray::<i32>::from(vec![Some(0), Some(2), None, None, Some(4)]);

    let mut builder = PrimitiveArray::<i32>::builder(5);
    builder.push(0).unwrap();
    builder.push(2).unwrap();
    builder.push_null().unwrap();
    builder.push_null().unwrap();
    builder.push(4).unwrap();
    let arr2 = builder.finish();

    assert_eq!(arr1.len(), arr2.len());
    assert_eq!(arr1.offset(), arr2.offset());
    assert_eq!(arr1.null_count(), arr2.null_count());
    for i in 0..5 {
        assert_eq!(arr1.is_null(i), arr2.is_null(i));
        assert_eq!(arr1.is_valid(i), arr2.is_valid(i));
        if arr1.is_valid(i) {
            assert_eq!(arr1.value(i), arr2.value(i));
        }
    }
}

#[test]
fn test_primitive_array_builder_push_slice() {
    let arr1 = PrimitiveArray::<i32>::from(vec![Some(0), Some(2), None, None, Some(4)]);

    let mut builder = PrimitiveArray::<i32>::builder(5);
    builder.push_slice(&[0, 2]).unwrap();
    builder.push_null().unwrap();
    builder.push_null().unwrap();
    builder.push(4).unwrap();
    let arr2 = builder.finish();

    assert_eq!(arr1.len(), arr2.len());
    assert_eq!(arr1.offset(), arr2.offset());
    assert_eq!(arr1.null_count(), arr2.null_count());
    for i in 0..5 {
        assert_eq!(arr1.is_null(i), arr2.is_null(i));
        assert_eq!(arr1.is_valid(i), arr2.is_valid(i));
        if arr1.is_valid(i) {
            assert_eq!(arr1.value(i), arr2.value(i));
        }
    }
}

#[test]
fn test_list_array_builder() {
    let values_builder = PrimitiveArrayBuilder::<i32>::new(10);
    let mut builder = ListArrayBuilder::new(values_builder);

    //  [[0, 1, 2], [3, 4, 5], [6, 7]]
    builder.values().push(0).unwrap();
    builder.values().push(1).unwrap();
    builder.values().push(2).unwrap();
    builder.append(true).unwrap();
    builder.values().push(3).unwrap();
    builder.values().push(4).unwrap();
    builder.values().push(5).unwrap();
    builder.append(true).unwrap();
    builder.values().push(6).unwrap();
    builder.values().push(7).unwrap();
    builder.append(true).unwrap();
    let list_array: ListArray = builder.finish();

    let values = list_array.values().buffers()[0].clone();
    assert_eq!(
        Buffer::from_slice(&[0, 1, 2, 3, 4, 5, 6, 7].to_byte_slice()),
        values
    );
    assert_eq!(
        Buffer::from_slice(&[0, 3, 6, 8].to_byte_slice()),
        list_array.data().buffers()[0].clone()
    );
    assert_eq!(DataType::Int32, list_array.value_type());
    assert_eq!(3, list_array.len());
    assert_eq!(0, list_array.null_count());
    assert_eq!(6, list_array.value_offset(2));
    assert_eq!(2, list_array.value_length(2));
    for i in 0..3 {
        assert!(list_array.is_valid(i as i64));
        assert!(!list_array.is_null(i as i64));
    }
}

#[test]
fn test_list_array_builder_nulls() {
    let values_builder = PrimitiveArrayBuilder::<i32>::new(10);
    let mut builder = ListArrayBuilder::new(values_builder);

    //  [[0, 1, 2], null, [3, null, 5], [6, 7]]
    builder.values().push(0).unwrap();
    builder.values().push(1).unwrap();
    builder.values().push(2).unwrap();
    builder.append(true).unwrap();
    builder.append(false).unwrap();
    builder.values().push(3).unwrap();
    builder.values().push_null().unwrap();
    builder.values().push(5).unwrap();
    builder.append(true).unwrap();
    builder.values().push(6).unwrap();
    builder.values().push(7).unwrap();
    builder.append(true).unwrap();
    let list_array: ListArray = builder.finish();

    assert_eq!(DataType::Int32, list_array.value_type());
    assert_eq!(4, list_array.len());
    assert_eq!(1, list_array.null_count());
    assert_eq!(3, list_array.value_offset(2));
    assert_eq!(3, list_array.value_length(2));
}

#[test]
fn test_list_list_array_builder() {
    let primitive_builder = PrimitiveArrayBuilder::<i32>::new(10);
    let values_builder = ListArrayBuilder::new(primitive_builder);
    let mut builder = ListArrayBuilder::new(values_builder);

    //  [[[1, 2], [3, 4]], [[5, 6, 7], null, [8]], null, [[9, 10]]]
    builder.values().values().push(1).unwrap();
    builder.values().values().push(2).unwrap();
    builder.values().append(true).unwrap();
    builder.values().values().push(3).unwrap();
    builder.values().values().push(4).unwrap();
    builder.values().append(true).unwrap();
    builder.append(true).unwrap();

    builder.values().values().push(5).unwrap();
    builder.values().values().push(6).unwrap();
    builder.values().values().push(7).unwrap();
    builder.values().append(true).unwrap();
    builder.values().append(false).unwrap();
    builder.values().values().push(8).unwrap();
    builder.values().append(true).unwrap();
    builder.append(true).unwrap();

    builder.append(false).unwrap();

    builder.values().values().push(9).unwrap();
    builder.values().values().push(10).unwrap();
    builder.values().append(true).unwrap();
    builder.append(true).unwrap();

    let list_array: ListArray = builder.finish();

    assert_eq!(4, list_array.len());
    assert_eq!(1, list_array.null_count());
    assert_eq!(
        Buffer::from_slice(&[0, 2, 5, 5, 6].to_byte_slice()),
        list_array.data().buffers()[0].clone()
    );

    assert_eq!(6, list_array.values().len());
    assert_eq!(1, list_array.values().null_count());
    assert_eq!(
        Buffer::from_slice(&[0, 2, 4, 7, 7, 8, 10].to_byte_slice()),
        list_array.values().buffers()[0].clone()
    );

    assert_eq!(10, list_array.values().child_data()[0].len());
    assert_eq!(0, list_array.values().child_data()[0].null_count());
    assert_eq!(
        Buffer::from_slice(&[1, 2, 3, 4, 5, 6, 7, 8, 9, 10].to_byte_slice()),
        list_array.values().child_data()[0].buffers()[0].clone()
    );
}

#[test]
fn test_boolean_array_builder_push_null_and_option() {
    let mut builder = BooleanArray::builder(4);
    builder.push(true).unwrap();
    builder.push_null().unwrap();
    builder.push_option(Some(false)).unwrap();
    builder.push_option(None).unwrap();
    let arr = builder.finish();
    assert_eq!(4, arr.len());
    assert_eq!(2, arr.null_count());
    assert!(arr.is_valid(0));
    assert!(arr.is_null(1));
    assert!(arr.is_valid(2));
    assert!(arr.is_null(3));
    assert!(arr.value(0));
    assert!(!arr.value(2));
}

#[test]
fn test_primitive_builder_u64_values() {
    let mut builder = PrimitiveArrayBuilder::<u64>::new(3);
    builder.push(1).unwrap();
    builder.push(u64::MAX).unwrap();
    builder.push(42).unwrap();
    let arr = builder.finish();
    assert_eq!(3, arr.len());
    assert_eq!(0, arr.null_count());
    assert_eq!(1, arr.value(0));
    assert_eq!(u64::MAX, arr.value(1));
    assert_eq!(42, arr.value(2));
}
