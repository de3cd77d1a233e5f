use dh::{ReadSeek, ReadVal};

#[test]
fn read_force_read_primitive() {
    let data = vec![0u8, 1, 2, 3, 4, 5, 6, 7];
    let mut reader = dh::data::read(data);

    let val: u8 = reader.read_u8().unwrap();
    assert_eq!(val, 0);

    let val: Vec<u8> = reader.read_bytes(3).unwrap();
    assert_eq!(val, [1, 2, 3]);

    let val: u16 = reader.read_u16be().unwrap();
    assert_eq!(val, 0x04_05);

    let val: u16 = reader.read_u16le().unwrap();
    assert_eq!(val, 0x07_06);
}

#[test]
fn read_force_read_u16_ne() {
    let data = vec![0x12u8, 0x34, 0x56, 0x78];
    let mut reader = dh::data::read(data);

    let parts = (
        u16::from_ne_bytes([0x12, 0x34]),
        u16::from_ne_bytes([0x56, 0x78]),
    );

    assert_eq!(reader.read_u16_ne().unwrap(), parts.0);
    assert_eq!(reader.read_u16_ne().unwrap(), parts.1);
}

#[test]
fn read_force_read_u16_be() {
    let data = vec![0x12u8, 0x34, 0x56, 0x78];
    let mut reader = dh::data::read(data);

    assert_eq!(reader.read_u16be().unwrap(), 0x1234);
    assert_eq!(reader.read_u16be().unwrap(), 0x5678);
}

#[test]
fn read_force_read_u32_ne() {
    let data = vec![0x12u8, 0x34, 0x56, 0x78, 0x9A, 0xBC, 0xDE, 0xF0];
    let mut reader = dh::data::read(data);

    let parts = (
        u32::from_ne_bytes([0x12, 0x34, 0x56, 0x78]),
        u32::from_ne_bytes([0x9A, 0xBC, 0xDE, 0xF0]),
    );

    assert_eq!(reader.read_u32_ne().unwrap(), parts.0);
    assert_eq!(reader.read_u32_ne().unwrap(), parts.1);
}

#[test]
fn read_force_read_u32_le() {
    let data = vec![0x12u8, 0x34, 0x56, 0x78, 0x9A, 0xBC, 0xDE, 0xF0];
    let mut reader = dh::data::read(data);

    assert_eq!(reader.read_u32le().unwrap(), 0x78563412);
    assert_eq!(reader.read_u32le().unwrap(), 0xF0DEBC9A);
}

#[test]
fn read_force_read_u32_be() {
    let data = vec![0x12u8, 0x34, 0x56, 0x78, 0x9A, 0xBC, 0xDE, 0xF0];
    let mut reader = dh::data::read(data);

    assert_eq!(reader.read_u32be().unwrap(), 0x12345678);
    assert_eq!(reader.read_u32be().unwrap(), 0x9ABCDEF0);
}

#[test]
fn read_force_read_u64_ne() {
    let data = vec![
        0x12u8, 0x34, 0x56, 0x78, 0x9A, 0xBC, 0xDE, 0xF0, 0x01, 0x23, 0x45, 0x67, 0x89, 0xAB,
        0xCD, 0xEF,
    ];
    let mut reader = dh::data::read(data);

    let parts = (
        u64::from_ne_bytes([0x12, 0x34, 0x56, 0x78, 0x9A, 0xBC, 0xDE, 0xF0]),
        u64::from_ne_bytes([0x01, 0x23, 0x45, 0x67, 0x89, 0xAB, 0xCD, 0xEF]),
    );

    assert_eq!(reader.read_u64_ne().unwrap(), parts.0);
    assert_eq!(reader.read_u64_ne().unwrap(), parts.1);
}

#[test]
fn read_force_read_u64_le() {
    let data = vec![
        0x12u8, 0x34, 0x56, 0x78, 0x9A, 0xBC, 0xDE, 0xF0, 0x01, 0x23, 0x45, 0x67, 0x89, 0xAB,
        0xCD, 0xEF,
    ];
    let mut reader = dh::data::read(data);

    assert_eq!(reader.read_u64le().unwrap(), 0xF0DEBC9A78563412);
    assert_eq!(reader.read_u64le().unwrap(), 0xEFCDAB8967452301);
}

#[test]
fn read_force_read_u64_be() {
    let data = vec![
        0x12u8, 0x34, 0x56, 0x78, 0x9A, 0xBC, 0xDE, 0xF0, 0x01, 0x23, 0x45, 0x67, 0x89, 0xAB,
        0xCD, 0xEF,
    ];
    let mut reader = dh::data::read(data);

    assert_eq!(reader.read_u64be().unwrap(), 0x123456789ABCDEF0);
    assert_eq!(reader.read_u64be().unwrap(), 0x0123456789ABCDEF);
}

#[test]
fn read_force_read_u128_ne() {
    let data = vec![
        1u8, 0, 0, 0, 0, 0, 0, 0, 0, 0, 0, 0, 0, 0, 0, 0, 1, 0, 0, 0, 0, 0, 0, 0, 0, 0, 0, 0, 0,
        0, 0, 0,
    ];
    let mut reader = dh::data::read(data);

    let expected = u128::from_ne_bytes([1, 0, 0, 0, 0, 0, 0, 0, 0, 0, 0, 0, 0, 0, 0, 0]);

    assert_eq!(reader.read_u128_ne().unwrap(), expected);
    assert_eq!(reader.read_u128_ne().unwrap(), expected);
}

#[test]
fn read_force_read_u128_le() {
    let data = vec![
        1u8, 0, 0, 0, 0, 0, 0, 0, 0, 0, 0, 0, 0, 0, 0, 0, 1, 0, 0, 0, 0, 0, 0, 0, 0, 0, 0, 0, 0,
        0, 0, 0,
    ];
    let mut reader = dh::data::read(data);

    assert_eq!(
        reader.read_u128le().unwrap(),
        0x00000000000000000000000000000001
    );
    assert_eq!(
        reader.read_u128le().unwrap(),
        0x00000000000000000000000000000001
    );
}

#[test]
fn read_force_read_vec() {
    let data = vec![0u8, 1, 2, 3, 4, 5, 6, 7];
    let mut reader = dh::data::read(data);

    let val: Vec<u8> = reader.read_bytes(4).unwrap();
    assert_eq!(val, vec![0, 1, 2, 3]);
}

#[test]
fn read_force_read_str() {
    let data = vec![0x41u8, 0x42, 0x43, 0x44, 0x45, 0x46, 0x47, 0x48];
    let mut reader = dh::data::read(data);

    let val = reader.read_utf8(4).unwrap();
    assert_eq!(val, String::from("ABCD"));
}
