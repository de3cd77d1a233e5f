use dh::{ReadSeek, ReadVal};

#[test]
fn test_unsigned_to_signed() {
    assert_eq!(dh::signed::unsigned_to_signed(0, 1, 1), 0);
    assert_eq!(dh::signed::unsigned_to_signed(0b0100_0000, 1, 1), -64);
    assert_eq!(dh::signed::unsigned_to_signed(0b0100_0001, 1, 1), -63);
    assert_eq!(dh::signed::unsigned_to_signed(0b0011_1111, 1, 1), 63);

    assert_eq!(dh::signed::unsigned_to_signed(0, 2, 1), 0);
    assert_eq!(
        dh::signed::unsigned_to_signed(0b0010_0000_0000_0000, 2, 1),
        -8192
    );
    assert_eq!(
        dh::signed::unsigned_to_signed(0b0010_0000_0000_0001, 2, 1),
        -8191
    );
    assert_eq!(
        dh::signed::unsigned_to_signed(0b0001_1111_1111_1111, 2, 1),
        8191
    );
}

#[test]
fn read_vu8() {
    let data = vec![0xff, 0xff, 0x7f, 0xff];
    let mut reader = dh::data::read(data);

    let val = reader.read_vu8().unwrap();
    assert_eq!(val, 0x7f << 14 | 0x7f << 7 | 0xff);
}

#[test]
fn read_vu16_le() {
    let data = vec![0xff, 0xff, 0xff, 0xff, 0xff, 0x7f, 0xff, 0xff];
    let mut reader = dh::data::read(data);

    let val = reader.read_vu16_le().unwrap();
    assert_eq!(val, 0x7fff << 30 | 0x7fff << 15 | 0xffff);
}

#[test]
fn read_vu16_be() {
    let data = vec![0xff, 0xff, 0xff, 0xff, 0x7f, 0xff, 0xff, 0xff];
    let mut reader = dh::data::read(data);

    let val = reader.read_vu16_be().unwrap();
    assert_eq!(val, 0x7fff << 30 | 0x7fff << 15 | 0xffff);
}

#[test]
fn read_vu32_le() {
    let data = vec![
        0xff, 0xff, 0xff, 0xff, 0xff, 0xff, 0xff, 0xff, 0xff, 0xff, 0xff, 0x7f, 0xff, 0xff, 0xff,
        0xff,
    ];
    let mut reader = dh::data::read(data);

    let val = reader.read_vu32_le().unwrap();
    assert_eq!(val, 0x7fffffff << 62 | 0x7fffffff << 31 | 0xffffffff);
}

#[test]
fn read_vu32_be() {
    let data = vec![
        0xff, 0xff, 0xff, 0xff, 0xff, 0xff, 0xff, 0xff, 0x7f, 0xff, 0xff, 0xff, 0xff, 0xff, 0xff,
        0xff,
    ];
    let mut reader = dh::data::read(data);

    let val = reader.read_vu32_be().unwrap();
    assert_eq!(val, 0x7fffffff << 62 | 0x7fffffff << 31 | 0xffffffff);
}

#[test]
fn read_vu64_le() {
    let data = vec![
        0xff, 0xff, 0xff, 0xff, 0xff, 0xff, 0xff, 0xff, 0xff, 0xff, 0xff, 0xff, 0xff, 0xff, 0xff,
        0x7f, 0xff, 0xff, 0xff, 0xff, 0xff, 0xff, 0xff, 0xff,
    ];
    let mut reader = dh::data::read(data);

    let val = reader.read_vu64_le().unwrap();
    assert_eq!(val, 0x7fffffffffffffff << 63 | 0xffffffffffffffff);
}

#[test]
fn read_vu64_be() {
    let data = vec![
        0xff, 0xff, 0xff, 0xff, 0xff, 0xff, 0xff, 0xff, 0x7f, 0xff, 0xff, 0xff, 0xff, 0xff, 0xff,
        0xff, 0xff, 0xff, 0xff, 0xff, 0xff, 0xff, 0xff, 0xff,
    ];
    let mut reader = dh::data::read(data);

    let val = reader.read_vu64_be().unwrap();
    assert_eq!(val, 0x7fffffffffffffff << 63 | 0xffffffffffffffff);
}

#[test]
fn read_read_u8() {
    let data = vec![0u8, 1, 2, 3];
    let mut reader = dh::data::read(data);

    assert_eq!(reader.read_u8().unwrap(), 0);
    assert_eq!(reader.read_u8().unwrap(), 1);
    assert_eq!(reader.read_u8().unwrap(), 2);
    assert_eq!(reader.read_u8().unwrap(), 3);

    let val = reader.read_u8();
    assert!(val.is_err());
}

#[test]
fn read_read_u16_ne() {
    let data = vec![0x12u8, 0x34, 0x56, 0x78];
    let mut reader = dh::data::read(data);

    let parts = (
        u16::from_ne_bytes([0x12, 0x34]),
        u16::from_ne_bytes([0x56, 0x78]),
    );

    assert_eq!(reader.read_u16_ne().unwrap(), parts.0);
    assert_eq!(reader.read_u16_ne().unwrap(), parts.1);

    let val = reader.read_u16_ne();
    assert!(val.is_err());
}

#[test]
fn read_read_u16_le() {
    let data = vec![0x12u8, 0x34, 0x56, 0x78];
    let mut reader = dh::data::read(data);

    assert_eq!(reader.read_u16(dh::Endianess::Little).unwrap(), 0x3412);
    assert_eq!(reader.read_u16(dh::Endianess::Little).unwrap(), 0x7856);

    let val = reader.read_u16(dh::Endianess::Little);
    assert!(val.is_err());
}

#[test]
fn read_read_u16_be() {
    let data = vec![0x12u8, 0x34, 0x56, 0x78];
    let mut reader = dh::data::read(data);

    assert_eq!(reader.read_u16be().unwrap(), 0x1234);
    assert_eq!(reader.read_u16be().unwrap(), 0x5678);

    let val = reader.read_u16be();
    assert!(val.is_err());
}

#[test]
fn read_read_u32_ne() {
    let data = vec![0x12u8, 0x34, 0x56, 0x78, 0x9A, 0xBC, 0xDE, 0xF0];
    let mut reader = dh::data::read(data);

    let parts = (
        u32::from_ne_bytes([0x12, 0x34, 0x56, 0x78]),
        u32::from_ne_bytes([0x9A, 0xBC, 0xDE, 0xF0]),
    );

    assert_eq!(reader.read_u32_ne().unwrap(), parts.0);
    assert_eq!(reader.read_u32_ne().unwrap(), parts.1);

    let val = reader.read_u32_ne();
    assert!(val.is_err());
}

#[test]
fn read_read_u32_le() {
    let data = vec![0x12u8, 0x34, 0x56, 0x78, 0x9A, 0xBC, 0xDE, 0xF0];
    let mut reader = dh::data::read(data);

    assert_eq!(reader.read_u32le().unwrap(), 0x78563412);
    assert_eq!(reader.read_u32le().unwrap(), 0xF0DEBC9A);

    let val = reader.read_u32le();
    assert!(val.is_err());
}

#[test]
fn read_read_u32_be() {
    let data = vec![0x12u8, 0x34, 0x56, 0x78, 0x9A, 0xBC, 0xDE, 0xF0];
    let mut reader = dh::data::read(data);

    assert_eq!(reader.read_u32be().unwrap(), 0x12345678);
    assert_eq!(reader.read_u32be().unwrap(), 0x9ABCDEF0);

    let val = reader.read_u32be();
    assert!(val.is_err());
}

#[test]
fn read_read_u64_ne() {
    let data = vec![
        0x12u8, 0x34, 0x56, 0x78, 0x9A, 0xBC, 0xDE, 0xF0, 0x01, 0x23, 0x45, 0x67, 0x89, 0xAB,
        0xCD, 0xEF,
    ];
    let mut reader = dh::data::read(data);

    let parts = (
        u64::from_ne_bytes([0x12, 0x34, 0x56, 0x78, 0x9A, 0xBC, 0xDE, 0xF0]),
        u64::from_ne_bytes([0x01, 0x23, 0x45, 0x67, 0x89, 0xAB, 0xCD, 0xEF]),
    );

    assert_eq!(reader.read_u64_ne().unwrap(), parts.0);
    assert_eq!(reader.read_u64_ne().unwrap(), parts.1);

    let val = reader.read_u64_ne();
    assert!(val.is_err());
}

#[test]
fn read_read_u64_le() {
    let data = vec![
        0x12u8, 0x34, 0x56, 0x78, 0x9A, 0xBC, 0xDE, 0xF0, 0x01, 0x23, 0x45, 0x67, 0x89, 0xAB,
        0xCD, 0xEF,
    ];
    let mut reader = dh::data::read(data);

    assert_eq!(reader.read_u64le().unwrap(), 0xF0DEBC9A78563412);
    assert_eq!(reader.read_u64le().unwrap(), 0xEFCDAB8967452301);

    let val = reader.read_u64le();
    assert!(val.is_err());
}

#[test]
fn read_read_u64_be() {
    let data = vec![
        0x12u8, 0x34, 0x56, 0x78, 0x9A, 0xBC, 0xDE, 0xF0, 0x01, 0x23, 0x45, 0x67, 0x89, 0xAB,
        0xCD, 0xEF,
    ];
    let mut reader = dh::data::read(data);

    assert_eq!(reader.read_u64be().unwrap(), 0x123456789ABCDEF0);
    assert_eq!(reader.read_u64be().unwrap(), 0x0123456789ABCDEF);

    let val = reader.read_u64be();
    assert!(val.is_err());
}

#[test]
fn read_read_u128_ne() {
    let data = vec![
        1u8, 0, 0, 0, 0, 0, 0, 0, 0, 0, 0, 0, 0, 0, 0, 0, 1, 0, 0, 0, 0, 0, 0, 0, 0, 0, 0, 0, 0,
        0, 0, 0,
    ];
    let mut reader = dh::data::read(data);

    let expected = u128::from_ne_bytes([1, 0, 0, 0, 0, 0, 0, 0, 0, 0, 0, 0, 0, 0, 0, 0]);

    assert_eq!(reader.read_u128_ne().unwrap(), expected);
    assert_eq!(reader.read_u128_ne().unwrap(), expected);

    let val = reader.read_u128_ne();
    assert!(val.is_err());
}

#[test]
fn read_read_u128_le() {
    let data = vec![
        1u8, 0, 0, 0, 0, 0, 0, 0, 0, 0, 0, 0, 0, 0, 0, 0, 1, 0, 0, 0, 0, 0, 0, 0, 0, 0, 0, 0, 0,
        0, 0, 0,
    ];
    let mut reader = dh::data::read(data);

    assert_eq!(
        reader.read_u128le().unwrap(),
        0x00000000000000000000000000000001
    );
    assert_eq!(
        reader.read_u128le().unwrap(),
        0x00000000000000000000000000000001
    );

    let val = reader.read_u128le();
    assert!(val.is_err());
}

#[test]
fn read_read_vec() {
    let data = vec![0u8, 1, 2, 3, 4, 5, 6, 7];
    let mut reader = dh::data::read(data);

    let val: Vec<u8> = reader.read_bytes(4).unwrap();
    assert_eq!(val, vec![0, 1, 2, 3]);

    let val = reader.read_bytes(10);
    assert!(val.is_err());
}

#[test]
fn read_read_str() {
    let data = vec![0x41u8, 0x42, 0x43, 0x44, 0x45, 0x46, 0x47, 0x48];
    let mut reader = dh::data::read(data);

    let val = reader.read_utf8(4).unwrap();
    assert_eq!(val, String::from("ABCD"));

    let val = reader.read_utf8(10);
    assert!(val.is_err());
}
