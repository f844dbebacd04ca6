use bun_xray_core::bytes::{read_u16, read_u32, read_u64, read_u8};

#[test]
fn little_endian_reads() {
    let b = [0x01u8, 0x02, 0x03, 0x04, 0x05, 0x06, 0x07, 0x08, 0x09];
    assert_eq!(read_u8(&b, 8), Some(0x09));
    assert_eq!(read_u16(&b, 0), Some(0x0201));
    assert_eq!(read_u32(&b, 1), Some(0x05040302));
    assert_eq!(read_u64(&b, 1), Some(0x0908070605040302));
}

#[test]
fn reads_past_the_end_fail() {
    let b = [0xffu8; 8];
    assert_eq!(read_u8(&b, 8), None);
    assert_eq!(read_u16(&b, 7), None);
    assert_eq!(read_u32(&b, 5), None);
    assert_eq!(read_u64(&b, 1), None);
    assert_eq!(read_u64(&b, usize::MAX), None);
    assert_eq!(read_u64(&b, 0), Some(u64::MAX));
}
