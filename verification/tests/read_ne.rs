use dh::ReadVal;

#[test]
fn read_ne_read_u16_ne() {
    let data = vec![0x12u8, 0x34, 0x56, 0x78];
    let mut reader = dh::data::read(data);

    let parts = (
        u16::from_ne_bytes([0x12, 0x34]),
        u16::from_ne_bytes([0x56, 0x78]),
    );

    assert_eq!(reader.read_u16_ne().unwrap(), parts.0);
    assert_eq!(reader.read_u16_ne().unwrap(), parts.1);

    let val = reader.read_u16_ne();
    assert!(val.is_err());
}

#[test]
fn read_ne_read_u32_ne() {
    let data = vec![0x12u8, 0x34, 0x56, 0x78, 0x9A, 0xBC, 0xDE, 0xF0];
    let mut reader = dh::data::read(data);

    let parts = (
        u32::from_ne_bytes([0x12, 0x34, 0x56, 0x78]),
        u32::from_ne_bytes([0x9A, 0xBC, 0xDE, 0xF0]),
    );

    assert_eq!(reader.read_u32_ne().unwrap(), parts.0);
    assert_eq!(reader.read_u32_ne().unwrap(), parts.1);

    let val = reader.read_u32_ne();
    assert!(val.is_err());
}

#[test]
fn read_ne_read_u64_ne() {
    let data = vec![
        0x12u8, 0x34, 0x56, 0x78, 0x9A, 0xBC, 0xDE, 0xF0, 0x01, 0x23, 0x45, 0x67, 0x89, 0xAB,
        0xCD, 0xEF,
    ];
    let mut reader = dh::data::read(data);

    let parts = (
        u64::from_ne_bytes([0x12, 0x34, 0x56, 0x78, 0x9A, 0xBC, 0xDE, 0xF0]),
        u64::from_ne_bytes([0x01, 0x23, 0x45, 0x67, 0x89, 0xAB, 0xCD, 0xEF]),
    );

    assert_eq!(reader.read_u64_ne().unwrap(), parts.0);
    assert_eq!(reader.read_u64_ne().unwrap(), parts.1);

    let val = reader.read_u64_ne();
    assert!(val.is_err());
}

#[test]
fn read_ne_read_u128_ne() {
    let data = vec![
        1u8, 0, 0, 0, 0, 0, 0, 0, 0, 0, 0, 0, 0, 0, 0, 0, 1, 0, 0, 0, 0, 0, 0, 0, 0, 0, 0, 0, 0,
        0, 0, 0,
    ];
    let mut reader = dh::data::read(data);

    let expected = u128::from_ne_bytes([1, 0, 0, 0, 0, 0, 0, 0, 0, 0, 0, 0, 0, 0, 0, 0]);

    assert_eq!(reader.read_u128_ne().unwrap(), expected);
    assert_eq!(reader.read_u128_ne().unwrap(), expected);

    let val = reader.read_u128_ne();
    assert!(val.is_err());
}
