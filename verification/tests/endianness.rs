use elf64hdr::endianness::EndianRead;

#[test]
fn u16_read_from_honours_both_byte_orders() {
    let bytes = [0x01u8, 0x00];
    assert_eq!(u16::read_from(&bytes, true), 1);
    assert_eq!(u16::read_from(&bytes, false), 256);

    let bytes = [0x34u8, 0x12];
    assert_eq!(u16::read_from(&bytes, true), 0x1234);
    assert_eq!(u16::read_from(&bytes, false), 0x3412);
}

#[test]
fn u32_read_from_honours_both_byte_orders() {
    let bytes = [0x78u8, 0x56, 0x34, 0x12];
    assert_eq!(u32::read_from(&bytes, true), 0x12345678);
    assert_eq!(u32::read_from(&bytes, false), 0x78563412);
}

#[test]
fn u64_read_from_honours_both_byte_orders() {
    let bytes = [0xefu8, 0xcd, 0xab, 0x89, 0x67, 0x45, 0x23, 0x01];
    assert_eq!(u64::read_from(&bytes, true), 0x0123456789abcdef);
    assert_eq!(u64::read_from(&bytes, false), 0xefcdab8967452301);
}

#[test]
fn read_from_covers_the_extreme_values() {
    assert_eq!(u16::read_from(&[0x00, 0x00], true), 0);
    assert_eq!(u16::read_from(&[0xff, 0xff], false), 0xffff);
    assert_eq!(u32::read_from(&[0xff, 0xff, 0xff, 0xff], true), 0xffffffff);
    assert_eq!(
        u64::read_from(&[0xff, 0xff, 0xff, 0xff, 0xff, 0xff, 0xff, 0xff], false),
        u64::MAX
    );
}
