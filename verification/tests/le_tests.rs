use audiobook::le::{push_le, read_le};

#[test]
fn read_le_of_each_width() {
    let bytes = [0x78u8, 0x56, 0x34, 0x12, 0xff];
    assert_eq!(read_le(&bytes, 0, 0), 0);
    assert_eq!(read_le(&bytes, 0, 1), 0x78);
    assert_eq!(read_le(&bytes, 0, 2), 0x5678);
    assert_eq!(read_le(&bytes, 0, 3), 0x345678);
    assert_eq!(read_le(&bytes, 0, 4), 0x12345678);
    assert_eq!(read_le(&bytes, 1, 4), 0xff123456);
    assert_eq!(read_le(&bytes, 5, 0), 0);
}

#[test]
fn push_le_of_each_width() {
    let mut out = vec![9u8];
    push_le(&mut out, 0x12345678, 4);
    push_le(&mut out, 0x12345678, 2);
    push_le(&mut out, 0x12345678, 0);
    push_le(&mut out, 0xffff_ffff, 3);
    assert_eq!(out, vec![9, 0x78, 0x56, 0x34, 0x12, 0x78, 0x56, 0xff, 0xff, 0xff]);
}

#[test]
fn push_le_agrees_with_std() {
    for v in [0u32, 1, 255, 256, 65535, 65536, 0x8000_0000, u32::MAX, 24000, 48000] {
        let mut out = Vec::new();
        push_le(&mut out, v, 4);
        assert_eq!(out, v.to_le_bytes().to_vec());
        assert_eq!(read_le(&out, 0, 4), v);
        let mut short = Vec::new();
        push_le(&mut short, v, 2);
        assert_eq!(short, (v as u16).to_le_bytes().to_vec());
    }
}
