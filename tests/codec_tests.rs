use wav_audio::codec::{b2i16, b2u16, b2u32, i16_to_bytes, u16_to_bytes, u32_to_bytes, Endian};

#[test]
fn reads_u16_in_both_orders() {
    assert_eq!(b2u16([0x34, 0x12], Endian::Little), 0x1234);
    assert_eq!(b2u16([0x12, 0x34], Endian::Big), 0x1234);
    assert_eq!(b2u16([0xff, 0xff], Endian::Little), 0xffff);
}

#[test]
fn reads_u32_in_both_orders() {
    assert_eq!(b2u32([0x78, 0x56, 0x34, 0x12], Endian::Little), 0x1234_5678);
    assert_eq!(b2u32([b'R', b'I', b'F', b'F'], Endian::Big), 0x5249_4646);
    assert_eq!(b2u32([0xff, 0xff, 0xff, 0xff], Endian::Big), u32::MAX);
}

#[test]
fn reads_signed_samples() {
    assert_eq!(b2i16([0xff, 0xff], Endian::Little), -1);
    assert_eq!(b2i16([0x00, 0x80], Endian::Little), i16::MIN);
    assert_eq!(b2i16([0xff, 0x7f], Endian::Little), i16::MAX);
    assert_eq!(b2i16([0x80, 0x00], Endian::Big), i16::MIN);
}

#[test]
fn writes_bytes_that_read_back() {
    assert_eq!(u16_to_bytes(0x1234, Endian::Little), [0x34, 0x12]);
    assert_eq!(u16_to_bytes(0x1234, Endian::Big), [0x12, 0x34]);
    assert_eq!(u32_to_bytes(0x1234_5678, Endian::Little), [0x78, 0x56, 0x34, 0x12]);
    assert_eq!(u32_to_bytes(0x6461_7461, Endian::Big), *b"data");
    assert_eq!(i16_to_bytes(-2, Endian::Little), [0xfe, 0xff]);
    assert_eq!(b2i16(i16_to_bytes(-12345, Endian::Big), Endian::Big), -12345);
}
