use dh::{ReadVal, Rw, Seekable, Writable, WriteVal};

#[test]
fn data_ref_r000() {
    let data = "Hello, world!".as_bytes().to_vec();
    let mut reader = dh::data_ref::read(&data);

    let size = reader.size().unwrap();
    assert_eq!(reader.read_utf8_at(0, size).unwrap(), "Hello, world!");

    assert_eq!(
        dh::data_ref::close(reader),
        &"Hello, world!".as_bytes().to_vec()
    );
}

#[test]
fn data_ref_r001() {
    let data = vec![0, 1, 2, 3, 4, 5, 6, 7];
    let data2 = {
        let mut reader = dh::data_ref::read(&data);

        assert_eq!(reader.read_u8_at(0).unwrap(), 0);
        assert_eq!(reader.read_u16le_at(6).unwrap(), 0x0706);
        assert_eq!(reader.read_u64be().unwrap(), 0x0001020304050607);

        dh::data_ref::close(reader)
    };
    assert_eq!(data2, &data);
}

#[test]
fn data_ref_w000() {
    let mut data = "Hello, world!".as_bytes().to_vec();
    let mut writer = dh::data_ref::write(&mut data);

    writer.write_utf8_at(7, &"rust ".to_owned()).unwrap();

    writer.close().unwrap();
    assert_eq!(data, "Hello, rust !".as_bytes());
}

#[test]
fn data_ref_w001() {
    let mut data = "Hello, world!".as_bytes().to_vec();
    let mut writer = dh::data_ref::write(&mut data);

    let size = writer.size().unwrap();
    writer.allocate(size + 5).unwrap();
    writer.write_utf8_at(7, &"rust world!".to_owned()).unwrap();

    writer.close().unwrap();
    assert_eq!(data, "Hello, rust world!".as_bytes());
}

#[test]
fn data_ref_rw000() {
    let mut data = vec![0u8; 2];
    let mut rw = dh::data_ref::rw(&mut data);

    rw.write_u16be(0x1234).unwrap();
    rw.rewind().unwrap();
    assert_eq!(rw.read_u16be().unwrap(), 0x1234);

    rw.rw_close().unwrap();
    assert_eq!(data, vec![0x12, 0x34]);
}
