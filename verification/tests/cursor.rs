use bulkdir::cursor::{has_room, read_bytes, read_u32_le, read_u64_le};

#[test]
fn a_u32_is_read_least_significant_byte_first() {
    let buf = [0x78u8, 0x56, 0x34, 0x12, 0xff];
    assert_eq!(read_u32_le(&buf, 0), Some(0x1234_5678));
    assert_eq!(read_u32_le(&buf, 1), Some(0xff12_3456));
}

#[test]
fn the_largest_u32_is_read_whole() {
    let buf = [0xffu8; 4];
    assert_eq!(read_u32_le(&buf, 0), Some(u32::MAX));
}

#[test]
fn a_u32_that_leaves_the_buffer_is_not_read() {
    let buf = [1u8, 2, 3, 4, 5];
    assert_eq!(read_u32_le(&buf, 2), None);
    assert_eq!(read_u32_le(&buf, 5), None);
    assert_eq!(read_u32_le(&buf, usize::MAX), None);
    assert_eq!(read_u32_le(&buf[..3], 0), None);
    assert_eq!(read_u32_le(&[], 0), None);
}

#[test]
fn a_u64_is_read_least_significant_byte_first() {
    let buf = [0xefu8, 0xcd, 0xab, 0x89, 0x67, 0x45, 0x23, 0x01];
    assert_eq!(read_u64_le(&buf, 0), Some(0x0123_4567_89ab_cdef));
    let all = [0xffu8; 8];
    assert_eq!(read_u64_le(&all, 0), Some(u64::MAX));
}

#[test]
fn a_u64_that_leaves_the_buffer_is_not_read() {
    let buf = [0u8; 10];
    assert_eq!(read_u64_le(&buf, 3), None);
    assert_eq!(read_u64_le(&buf, 2), Some(0));
    assert_eq!(read_u64_le(&buf, usize::MAX - 3), None);
}

#[test]
fn counted_bytes_are_borrowed_inside_the_buffer_only() {
    let buf = [10u8, 11, 12, 13];
    assert_eq!(read_bytes(&buf, 1, 2), Some(&buf[1..3]));
    assert_eq!(read_bytes(&buf, 0, 4), Some(&buf[..]));
    assert_eq!(read_bytes(&buf, 4, 0), Some(&buf[4..]));
    assert_eq!(read_bytes(&buf, 3, 2), None);
    assert_eq!(read_bytes(&buf, 5, 0), None);
    assert_eq!(read_bytes(&buf, usize::MAX, 2), None);
    assert_eq!(read_bytes(&buf, 1, usize::MAX), None);
}

#[test]
fn room_is_told_without_overflow() {
    let buf = [0u8; 8];
    assert!(has_room(&buf, 0, 8));
    assert!(has_room(&buf, 8, 0));
    assert!(!has_room(&buf, 1, 8));
    assert!(!has_room(&buf, usize::MAX, 1));
    assert!(!has_room(&buf, 1, usize::MAX));
}
