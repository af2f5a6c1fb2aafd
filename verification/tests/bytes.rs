use ggpk_explorer::bytes::{
    has_room, i16_at, i32_at, read_i32, read_u32, read_u64, u16_at, u32_at, u64_at,
};

const DATA: [u8; 10] = [0x01, 0x02, 0x03, 0x84, 0x05, 0x06, 0x07, 0xF8, 0x09, 0x0A];

#[test]
fn integers_are_stored_least_significant_byte_first() {
    assert_eq!(u16_at(&DATA, 0), 0x0201);
    assert_eq!(u16_at(&DATA, 8), 0x0A09);
    assert_eq!(u32_at(&DATA, 0), 0x84030201);
    assert_eq!(u32_at(&DATA, 6), 0x0A09F807);
    assert_eq!(u64_at(&DATA, 0), 0xF807060584030201);
    assert_eq!(u64_at(&DATA, 2), 0x0A09F80706058403);
}

#[test]
fn signed_integers_are_twos_complement() {
    assert_eq!(i16_at(&DATA, 2), 0x8403u16 as i16);
    assert_eq!(i16_at(&DATA, 2), -31741);
    assert_eq!(i16_at(&DATA, 0), 0x0201);
    assert_eq!(i32_at(&DATA, 0), 0x84030201u32 as i32);
    assert_eq!(i32_at(&DATA, 0), -2080177663);
    assert_eq!(i32_at(&DATA, 4), 0xF8070605u32 as i32);
    assert_eq!(i32_at(&[0xFF, 0xFF, 0xFF, 0xFF], 0), -1);
    assert_eq!(i32_at(&[0, 0, 0, 0x80], 0), i32::MIN);
    assert_eq!(i16_at(&[0xFF, 0x7F], 0), i16::MAX);
}

#[test]
fn checked_reads_fail_behind_the_end() {
    assert_eq!(read_u32(&DATA, 6), Some(0x0A09F807));
    assert_eq!(read_u32(&DATA, 7), None);
    assert_eq!(read_u32(&DATA, 10), None);
    assert_eq!(read_u32(&DATA, usize::MAX), None);
    assert_eq!(read_i32(&DATA, 0), Some(-2080177663));
    assert_eq!(read_i32(&DATA[..3], 0), None);
    assert_eq!(read_u64(&DATA, 2), Some(0x0A09F80706058403));
    assert_eq!(read_u64(&DATA, 3), None);
    assert_eq!(read_u32(&[], 0), None);
}

#[test]
fn room_is_counted_without_overflow() {
    assert!(has_room(&DATA, 0, 10));
    assert!(has_room(&DATA, 10, 0));
    assert!(!has_room(&DATA, 0, 11));
    assert!(!has_room(&DATA, 11, 0));
    assert!(!has_room(&DATA, usize::MAX, 2));
    assert!(!has_room(&DATA, 2, usize::MAX));
}
