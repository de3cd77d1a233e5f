use dh::{Rw, Seekable, WriteSeek, WriteVal};

#[test]
fn write_primitive() {
    let mut buf = vec![0u8; 8];
    let mut writer = dh::data_ref::rw(&mut buf);

    writer.write_u8(0).unwrap();
    writer.write_bytes(&[1u8, 2, 3]).unwrap();
    writer.write_u16be(0x04_05).unwrap();
    writer.write_u16le(0x07_06).unwrap();

    let val = writer.write_u8(0);
    assert!(val.is_err());

    writer.rw_close().unwrap();
    assert_eq!(buf, vec![0, 1, 2, 3, 4, 5, 6, 7]);
}

#[test]
fn write_u8() {
    let mut buf = vec![0u8; 4];
    let mut writer = dh::data_ref::rw(&mut buf);

    writer.write_u8(0).unwrap();
    writer.write_u8(1).unwrap();
    writer.write_u8(2).unwrap();
    writer.write_u8(3).unwrap();

    let val = writer.write_u8(0);
    assert!(val.is_err());

    writer.rw_close().unwrap();
    assert_eq!(buf, vec![0, 1, 2, 3]);
}

#[test]
fn write_u16_ne() {
    let mut buf = vec![0u8; 4];
    let mut writer = dh::data_ref::rw(&mut buf);

    let parts = (
        u16::from_ne_bytes([0x12, 0x34]),
        u16::from_ne_bytes([0x56, 0x78]),
    );

    writer.write_u16_ne(parts.0).unwrap();
    writer.write_u16_ne(parts.1).unwrap();

    let val = writer.write_u16_ne(0);
    assert!(val.is_err());

    writer.rw_close().unwrap();
    assert_eq!(buf, vec![0x12, 0x34, 0x56, 0x78]);
}

#[test]
fn write_u16_le() {
    let mut buf = vec![0u8; 4];
    let mut writer = dh::data_ref::rw(&mut buf);

    writer.write_u16(dh::Endianess::Little, 0x3412).unwrap();
    writer.write_u16(dh::Endianess::Little, 0x7856).unwrap();

    let val = writer.write_u16(dh::Endianess::Little, 0);
    assert!(val.is_err());

    writer.rw_close().unwrap();
    assert_eq!(buf, vec![0x12, 0x34, 0x56, 0x78]);
}

#[test]
fn write_u16_be() {
    let mut buf = vec![0u8; 4];
    let mut writer = dh::data_ref::rw(&mut buf);

    writer.write_u16be(0x1234).unwrap();
    writer.write_u16be(0x5678).unwrap();

    let val = writer.write_u16be(0);
    assert!(val.is_err());

    writer.rw_close().unwrap();
    assert_eq!(buf, vec![0x12, 0x34, 0x56, 0x78]);
}

#[test]
fn write_u32_ne() {
    let mut buf = vec![0u8; 8];
    let mut writer = dh::data_ref::rw(&mut buf);

    let parts = (
        u32::from_ne_bytes([0x12, 0x34, 0x56, 0x78]),
        u32::from_ne_bytes([0x9A, 0xBC, 0xDE, 0xF0]),
    );

    writer.write_u32_ne(parts.0).unwrap();
    writer.write_u32_ne(parts.1).unwrap();

    let val = writer.write_u32_ne(0);
    assert!(val.is_err());

    writer.rw_close().unwrap();
    assert_eq!(buf, vec![0x12, 0x34, 0x56, 0x78, 0x9A, 0xBC, 0xDE, 0xF0]);
}

#[test]
fn write_u32_le() {
    let mut buf = vec![0u8; 8];
    let mut writer = dh::data_ref::rw(&mut buf);

    writer.write_u32le(0x78563412).unwrap();
    writer.write_u32le(0xF0DEBC9A).unwrap();

    let val = writer.write_u32le(0);
    assert!(val.is_err());

    writer.rw_close().unwrap();
    assert_eq!(buf, vec![0x12, 0x34, 0x56, 0x78, 0x9A, 0xBC, 0xDE, 0xF0]);
}

#[test]
fn write_u32_be() {
    let mut buf = vec![0u8; 8];
    let mut writer = dh::data_ref::rw(&mut buf);

    writer.write_u32be(0x12345678).unwrap();
    writer.write_u32be(0x9ABCDEF0).unwrap();

    let val = writer.write_u32be(0);
    assert!(val.is_err());

    writer.rw_close().unwrap();
    assert_eq!(buf, vec![0x12, 0x34, 0x56, 0x78, 0x9A, 0xBC, 0xDE, 0xF0]);
}

#[test]
fn write_u64_ne() {
    let mut buf = vec![0u8; 16];
    let mut writer = dh::data_ref::rw(&mut buf);

    let parts = (
        u64::from_ne_bytes([0x12, 0x34, 0x56, 0x78, 0x9A, 0xBC, 0xDE, 0xF0]),
        u64::from_ne_bytes([0x01, 0x23, 0x45, 0x67, 0x89, 0xAB, 0xCD, 0xEF]),
    );

    writer.write_u64_ne(parts.0).unwrap();
    writer.write_u64_ne(parts.1).unwrap();

    let val = writer.write_u64_ne(0);
    assert!(val.is_err());

    writer.rw_close().unwrap();
    assert_eq!(
        buf,
        vec![
            0x12, 0x34, 0x56, 0x78, 0x9A, 0xBC, 0xDE, 0xF0, 0x01, 0x23, 0x45, 0x67, 0x89, 0xAB,
            0xCD, 0xEF
        ]
    );
}

#[test]
fn write_u64_le() {
    let mut buf = vec![0u8; 16];
    let mut writer = dh::data_ref::rw(&mut buf);

    writer.write_u64le(0xF0DEBC9A78563412).unwrap();
    writer.write_u64le(0xEFCDAB8967452301).unwrap();

    let val = writer.write_u64le(0);
    assert!(val.is_err());

    writer.rw_close().unwrap();
    assert_eq!(
        buf,
        vec![
            0x12, 0x34, 0x56, 0x78, 0x9A, 0xBC, 0xDE, 0xF0, 0x01, 0x23, 0x45, 0x67, 0x89, 0xAB,
            0xCD, 0xEF
        ]
    );
}

#[test]
fn write_u64_be() {
    let mut buf = vec![0u8; 16];
    let mut writer = dh::data_ref::rw(&mut buf);

    writer.write_u64be(0x123456789ABCDEF0).unwrap();
    writer.write_u64be(0x0123456789ABCDEF).unwrap();

    let val = writer.write_u64be(0);
    assert!(val.is_err());

    writer.rw_close().unwrap();
    assert_eq!(
        buf,
        vec![
            0x12, 0x34, 0x56, 0x78, 0x9A, 0xBC, 0xDE, 0xF0, 0x01, 0x23, 0x45, 0x67, 0x89, 0xAB,
            0xCD, 0xEF
        ]
    );
}

#[test]
fn write_u128_ne() {
    let mut buf = vec![0u8; 32];
    let mut writer = dh::data_ref::rw(&mut buf);

    let part = u128::from_ne_bytes([1, 0, 0, 0, 0, 0, 0, 0, 0, 0, 0, 0, 0, 0, 0, 0]);

    writer.write_u128_ne(part).unwrap();
    writer.write_u128_ne(part).unwrap();

    let val = writer.write_u128_ne(0);
    assert!(val.is_err());

    writer.rw_close().unwrap();
    assert_eq!(
        buf,
        vec![
            1, 0, 0, 0, 0, 0, 0, 0, 0, 0, 0, 0, 0, 0, 0, 0, 1, 0, 0, 0, 0, 0, 0, 0, 0, 0, 0, 0,
            0, 0, 0, 0
        ]
    );
}

#[test]
fn write_u128_le() {
    let mut buf = vec![0u8; 32];
    let mut writer = dh::data_ref::rw(&mut buf);

    writer
        .write_u128le(0x00000000000000000000000000000001)
        .unwrap();
    writer
        .write_u128le(0x00000000000000000000000000000001)
        .unwrap();

    let val = writer.write_u128le(0);
    assert!(val.is_err());

    writer.rw_close().unwrap();
    assert_eq!(
        buf,
        vec![
            1, 0, 0, 0, 0, 0, 0, 0, 0, 0, 0, 0, 0, 0, 0, 0, 1, 0, 0, 0, 0, 0, 0, 0, 0, 0, 0, 0,
            0, 0, 0, 0
        ]
    );
}

#[test]
fn write_vec() {
    let mut buf = vec![0u8; 8];
    let mut writer = dh::data_ref::rw(&mut buf);

    writer.write_bytes(&[0u8, 1, 2, 3, 4, 5, 6, 7]).unwrap();

    let val = writer.write_bytes(&[0u8]);
    assert!(val.is_err());

    writer.rw_close().unwrap();
    assert_eq!(buf, vec![0, 1, 2, 3, 4, 5, 6, 7]);
}

#[test]
fn write_str() {
    let mut buf = vec![0u8; 8];
    let mut writer = dh::data_ref::rw(&mut buf);

    writer.write_utf8(&"ABCDEFGH".to_string()).unwrap();

    let val = writer.write_utf8(&"A".to_string());
    assert!(val.is_err());

    writer.rw_close().unwrap();
    assert_eq!(buf, b"ABCDEFGH".to_vec());
}
