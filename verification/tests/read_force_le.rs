use dh::{ReadSeek, ReadVal};

#[test]
fn read_force_le_read_primitive() {
    let data = vec![0u8, 1, 2, 3, 4, 5, 6, 7];
    let mut reader = dh::data::read(data);

    let val: u8 = reader.read_u8().unwrap();
    assert_eq!(val, 0);

    let val: Vec<u8> = reader.read_bytes(3).unwrap();
    assert_eq!(val, [1, 2, 3]);

    let val: u16 = reader.read_u16le().unwrap();
    assert_eq!(val, 0x05_04);

    let val: u16 = reader.read_u16le().unwrap();
    assert_eq!(val, 0x07_06);
}

#[test]
fn read_force_le_read_u16_le() {
    let data = vec![0x12u8, 0x34, 0x56, 0x78];
    let mut reader = dh::data::read(data);

    assert_eq!(reader.read_u16le().unwrap(), 0x3412);
    assert_eq!(reader.read_u16le().unwrap(), 0x7856);
}

#[test]
fn read_force_le_read_u32_le() {
    let data = vec![0x12u8, 0x34, 0x56, 0x78, 0x9A, 0xBC, 0xDE, 0xF0];
    let mut reader = dh::data::read(data);

    assert_eq!(reader.read_u32le().unwrap(), 0x78563412);
    assert_eq!(reader.read_u32le().unwrap(), 0xF0DEBC9A);
}

#[test]
fn read_force_le_read_u64_le() {
    let data = vec![
        0x12u8, 0x34, 0x56, 0x78, 0x9A, 0xBC, 0xDE, 0xF0, 0x01, 0x23, 0x45, 0x67, 0x89, 0xAB,
        0xCD, 0xEF,
    ];
    let mut reader = dh::data::read(data);

    assert_eq!(reader.read_u64le().unwrap(), 0xF0DEBC9A78563412);
    assert_eq!(reader.read_u64le().unwrap(), 0xEFCDAB8967452301);
}

#[test]
fn read_force_le_read_u128_le() {
    let data = vec![
        1u8, 0, 0, 0, 0, 0, 0, 0, 0, 0, 0, 0, 0, 0, 0, 0, 1, 0, 0, 0, 0, 0, 0, 0, 0, 0, 0, 0, 0,
        0, 0, 0,
    ];
    let mut reader = dh::data::read(data);

    assert_eq!(
        reader.read_u128le().unwrap(),
        0x00000000000000000000000000000001
    );
    assert_eq!(
        reader.read_u128le().unwrap(),
        0x00000000000000000000000000000001
    );
}

#[test]
fn read_force_le_read_vec() {
    let data = vec![0u8, 1, 2, 3, 4, 5, 6, 7];
    let mut reader = dh::data::read(data);

    let val: Vec<u8> = reader.read_bytes(4).unwrap();
    assert_eq!(val, vec![0, 1, 2, 3]);
}

#[test]
fn read_force_le_read_str() {
    let data = vec![0x41u8, 0x42, 0x43, 0x44, 0x45, 0x46, 0x47, 0x48];
    let mut reader = dh::data::read(data);

    let val = reader.read_utf8(4).unwrap();
    assert_eq!(val, String::from("ABCD"));
}
