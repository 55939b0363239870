use zkl_inbox::codec::{all_zero_from, bytes_equal, push_i64, push_u16, push_u32, read_bytes, read_i64, read_u32};

#[test]
fn integers_are_little_endian() {
    let mut out = Vec::new();
    push_u16(&mut out, 0x0102);
    push_u32(&mut out, 0x0a0b0c0d);
    push_i64(&mut out, -2);
    assert_eq!(out, vec![2, 1, 0x0d, 0x0c, 0x0b, 0x0a, 0xfe, 0xff, 0xff, 0xff, 0xff, 0xff, 0xff, 0xff]);
    assert_eq!(read_u32(&out, 2), 0x0a0b0c0d);
    assert_eq!(read_i64(&out, 6), -2);
    let mut big = Vec::new();
    push_i64(&mut big, i64::MIN);
    assert_eq!(read_i64(&big, 0), i64::MIN);
}

#[test]
fn byte_helpers() {
    let b = vec![1u8, 2, 0, 0];
    assert_eq!(read_bytes(&b, 1, 2), vec![2, 0]);
    assert!(all_zero_from(&b, 2));
    assert!(!all_zero_from(&b, 1));
    assert!(all_zero_from(&b, 4));
    assert!(bytes_equal(&b, &vec![1, 2, 0, 0]));
    assert!(!bytes_equal(&b, &vec![1, 2, 0]));
}
