use arrow_core::bit_util::{
    ceil, clear_bit, count_set_bits, get_bit, round_upto_multiple_of_64, set_bit,
};

#[test]
fn test_ceil() {
    assert_eq!(0, ceil(0, 8));
    assert_eq!(1, ceil(1, 8));
    assert_eq!(1, ceil(8, 8));
    assert_eq!(2, ceil(9, 8));
    assert_eq!(2, ceil(10, 8));
}

#[test]
fn test_round_upto_multiple_of_64() {
    assert_eq!(0, round_upto_multiple_of_64(0));
    assert_eq!(64, round_upto_multiple_of_64(1));
    assert_eq!(64, round_upto_multiple_of_64(63));
    assert_eq!(64, round_upto_multiple_of_64(64));
    assert_eq!(128, round_upto_multiple_of_64(65));
    assert_eq!(128, round_upto_multiple_of_64(100));
}

#[test]
fn test_get_and_set_bit() {
    let mut bytes: Vec<u8> = vec![0, 0];
    set_bit(&mut bytes, 3);
    set_bit(&mut bytes, 6);
    set_bit(&mut bytes, 9);
    assert_eq!(vec![0x48u8, 0x02], bytes);
    assert!(get_bit(&bytes, 3));
    assert!(get_bit(&bytes, 6));
    assert!(get_bit(&bytes, 9));
    assert!(!get_bit(&bytes, 0));
    assert!(!get_bit(&bytes, 8));
}

#[test]
fn test_clear_bit() {
    let mut bytes: Vec<u8> = vec![0xff, 0xff];
    clear_bit(&mut bytes, 3);
    clear_bit(&mut bytes, 9);
    assert_eq!(vec![0xf7u8, 0xfd], bytes);
    assert!(!get_bit(&bytes, 3));
    assert!(get_bit(&bytes, 2));
}

#[test]
fn test_count_set_bits() {
    assert_eq!(0, count_set_bits(&[0u8, 0]));
    assert_eq!(3, count_set_bits(&[0x48u8, 0x02]));
    assert_eq!(16, count_set_bits(&[0xffu8, 0xff]));
}
