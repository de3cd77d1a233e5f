use dh::{DhError, Dynamic, ReadSeek, ReadVal, Readable, Seekable, Writable, WriteVal};

#[test]
fn vu7_forward_decode() {
    let mut reader = dh::data::read(vec![0b10010000, 0b01000001]);

    let num = reader.read_vu7().unwrap();
    assert_eq!(num, 0b1000001_0010000);
}

#[test]
fn u16be_layout() {
    let mut writer = dh::data::write(vec![0u8; 2]);

    writer.write_u16be(0x0102).unwrap();

    assert_eq!(dh::data::close(writer), vec![0x01, 0x02]);
}

#[test]
fn bounded_view_window_write() {
    let mut data = "Hello, world!".as_bytes().to_vec();
    let mut writer = dh::data_ref::write(&mut data);

    let mut view = writer.limit(6, 6).unwrap();
    view.jump(1).unwrap();
    view.write_utf8(&"rust ".to_string()).unwrap();

    writer.close().unwrap();
    assert_eq!(data, "Hello, rust !".as_bytes());
}

#[test]
fn bounded_view_read_at_end_fails() {
    let data = vec![1u8, 2, 3, 4, 5, 6];
    let mut reader = dh::data::read(data);

    let mut view = reader.limit(2, 3).unwrap();
    view.end().unwrap();

    assert_eq!(view.read_u8().unwrap_err(), DhError::UnexpectedEof);
    assert_eq!(reader.pos().unwrap(), 5);
}

#[test]
fn bounded_view_leaves_position_on_failure() {
    let data = vec![1u8, 2, 3, 4, 5, 6, 7, 8];
    let mut reader = dh::data::read(data);

    let mut view = reader.limit(2, 4).unwrap();
    view.jump(3).unwrap();
    assert_eq!(view.read_bytes(2).unwrap_err(), DhError::UnexpectedEof);
    assert_eq!(view.pos().unwrap(), 3);
    assert_eq!(reader.pos().unwrap(), 5);
}

#[test]
fn ixle_fixed_round_trip() {
    let mut rw = dh::data::rw_new(3);

    rw.write_ixle(3, -0x010203).unwrap();
    rw.rewind().unwrap();
    assert_eq!(rw.read_ixle(3).unwrap(), -0x010203);

    assert_eq!(dh::data::close(rw), vec![0xfd, 0xfd, 0xfe]);
}

#[test]
fn ixbe_fixed_layout() {
    let mut writer = dh::data::write_new(3);

    writer.write_ixbe(3, -0x010203).unwrap();

    assert_eq!(dh::data::close(writer), vec![0xfe, 0xfd, 0xfd]);
}

#[test]
fn vuxle_round_trip_all_sizes() {
    let values: Vec<u128> = vec![
        0,
        1,
        0x7f,
        0x80,
        0x3fff,
        0x4000,
        0xff_ee_dd,
        0xffff_ffff,
        0x0123_4567_89ab_cdef,
        u128::MAX,
    ];
    for size in [1u8, 2, 4, 8, 16] {
        for &v in values.iter() {
            let mut rw = dh::data::rw_empty();
            rw.write_vuxle(size, v).unwrap();
            rw.rewind().unwrap();
            assert_eq!(rw.read_vuxle(size).unwrap(), v, "size {}", size);

            let mut rw = dh::data::rw_empty();
            rw.write_vuxbe(size, v).unwrap();
            rw.rewind().unwrap();
            assert_eq!(rw.read_vuxbe(size).unwrap(), v, "size {}", size);
        }
    }
}

#[test]
fn vuxler_round_trip_nonzero_low_digit() {
    let values: Vec<u128> = vec![0, 1, 0x7f, 0x81, 0x3fff, 0x4001, 0xff_ee_dd, u128::MAX];
    for size in [1u8, 2, 4, 8, 16] {
        for &v in values.iter() {
            let mut rw = dh::data::rw_empty();
            rw.write_vuxler(size, v).unwrap();
            rw.rewind().unwrap();
            assert_eq!(rw.read_vuxler(size).unwrap(), v, "size {}", size);

            let mut rw = dh::data::rw_empty();
            rw.write_vuxber(size, v).unwrap();
            rw.rewind().unwrap();
            assert_eq!(rw.read_vuxber(size).unwrap(), v, "size {}", size);
        }
    }
}

#[test]
fn vuxler_drops_zero_low_digit() {
    let mut rw = dh::data::rw_empty();
    rw.write_vuxler(1, 0x80).unwrap();
    rw.rewind().unwrap();

    assert_eq!(rw.read_vuxler(1).unwrap(), 0x01);
}

#[test]
fn vixle_round_trip_symmetric_range() {
    for size in [1u8, 2, 4, 8, 16] {
        let half: i128 = 1i128 << (8 * size as u32 - 2);
        for v in [0, 1, -1, 63, -63, half - 1, -half] {
            let mut rw = dh::data::rw_empty();
            rw.write_vixle(size, v).unwrap();
            rw.rewind().unwrap();
            assert_eq!(rw.read_vixle(size).unwrap(), v, "size {}", size);
        }
    }
}

#[test]
fn encoding_is_minimal() {
    let mut short = dh::data::rw_empty();
    short.write_vuxle(1, 0x7f).unwrap();
    assert_eq!(short.size().unwrap(), 1);

    let mut longer = dh::data::rw_empty();
    longer.write_vuxle(1, 0x80).unwrap();
    assert_eq!(longer.size().unwrap(), 2);

    let mut wide = dh::data::rw_empty();
    wide.write_vuxle(2, 0x7fff).unwrap();
    assert_eq!(wide.size().unwrap(), 2);
}

#[test]
fn write_uxle_rejects_oversized_values() {
    let mut writer = dh::data::write_empty();

    assert_eq!(
        writer.write_uxle(2, 0x1_0000).unwrap_err(),
        DhError::InvalidInput
    );
    assert_eq!(writer.size().unwrap(), 0);

    writer.write_uxle(2, 0xffff).unwrap();
    assert_eq!(dh::data::close(writer), vec![0xff, 0xff]);
}

#[test]
fn read_past_end_is_eof() {
    let mut reader = dh::data::read(vec![1u8, 2]);

    assert_eq!(reader.read_u32le().unwrap_err(), DhError::UnexpectedEof);
    assert_eq!(reader.pos().unwrap(), 0);
}

#[test]
fn invalid_utf8_is_rejected() {
    let mut reader = dh::data::read(vec![0xff, 0xfe, 0x41]);

    assert_eq!(reader.read_utf8(3).unwrap_err(), DhError::InvalidData);
}

#[test]
fn seek_to_negative_position_fails() {
    let mut reader = dh::data::read(vec![1u8, 2, 3]);

    assert_eq!(reader.jump(-1).unwrap_err(), DhError::InvalidInput);
    assert_eq!(reader.pos().unwrap(), 0);
}

#[test]
fn native_order_agrees_with_one_endianness() {
    let mut reader = dh::data::read(vec![0x01, 0x02]);
    let v = reader.read_u16_ne().unwrap();
    assert!(v == 0x0201 || v == 0x0102);
    assert_eq!(v, u16::from_ne_bytes([0x01, 0x02]));

    let mut writer = dh::data::write_new(2);
    writer.write_u16_ne(v).unwrap();
    assert_eq!(dh::data::close(writer), vec![0x01, 0x02]);
}

#[test]
fn utf8_survives_a_round_trip() {
    let text = "δh stream".to_string();
    let mut rw = dh::data::rw_empty();

    rw.write_utf8(&text).unwrap();
    let size = rw.size().unwrap();
    rw.rewind().unwrap();

    assert_eq!(rw.read_utf8(size).unwrap(), text);
}

#[test]
fn signed_transforms_mask_to_width() {
    assert_eq!(dh::signed::signed_to_unsigned(-1, 1), 0xff);
    assert_eq!(dh::signed::signed_to_unsigned(-1, 2), 0xffff);
    assert_eq!(dh::signed::signed_to_unsigned(-0x010203, 3), 0xfefdfd);
    assert_eq!(dh::signed::signed_to_unsigned(-1, 16), u128::MAX);

    assert_eq!(dh::signed::signed_to_unsigned_vi(-1, 1), 0x7f);
    assert_eq!(dh::signed::signed_to_unsigned_vi(-64, 1), 0x40);
    assert_eq!(dh::signed::signed_to_unsigned_vi(-1, 2), 0x7fff);
    assert_eq!(dh::signed::signed_to_unsigned_vi(-1, 16), u128::MAX >> 1);
}

#[test]
fn view_reports_window_relative_positions() {
    let data = vec![0u8, 1, 2, 3, 4, 5, 6, 7, 8, 9];
    let mut reader = dh::data::read(data);

    let mut view = reader.limit(4, 4).unwrap();
    assert_eq!(view.pos().unwrap(), 0);
    assert_eq!(view.read_u8().unwrap(), 4);
    assert_eq!(view.pos().unwrap(), 1);

    let parent = view.unlimit();
    assert_eq!(parent.pos().unwrap(), 5);
}

#[test]
fn dynamic_values_decode_from_streams() {
    let mut reader = dh::data::read(vec![0x41, 0x42, 0x43, 1, 2, 3]);

    let s: String = reader.read_dynamic(3).unwrap();
    assert_eq!(s, "ABC");
    assert_eq!(Dynamic::into_bytes(&s).unwrap(), b"ABC");

    let v: Vec<u8> = reader.read_dynamic(3).unwrap();
    assert_eq!(v, vec![1, 2, 3]);

    let missing: Result<Vec<u8>, dh::DhError> = reader.read_dynamic(2);
    assert_eq!(missing.unwrap_err(), dh::DhError::UnexpectedEof);

    let bad: Result<String, dh::DhError> = String::from_bytes(vec![0xff, 0xfe]);
    assert_eq!(bad.unwrap_err(), dh::DhError::InvalidData);
}

#[test]
fn endianness_dispatch_matches_fixed_orders() {
    let mut reader = dh::data::read(vec![0x12, 0x34, 0x12, 0x34, 0x01, 0x02]);
    assert_eq!(reader.read_u16(dh::Endianess::Little).unwrap(), 0x3412);
    assert_eq!(reader.read_u16(dh::Endianess::Big).unwrap(), 0x1234);
    let v = reader.read_u16(dh::Endianess::Native).unwrap();
    assert_eq!(v, u16::from_ne_bytes([0x01, 0x02]));

    let mut writer = dh::data::write_new(6);
    writer.write_i16(dh::Endianess::Big, -2).unwrap();
    writer.write_i16(dh::Endianess::Little, -2).unwrap();
    writer
        .write_i16(dh::Endianess::Native, i16::from_ne_bytes([0xfe, 0xff]))
        .unwrap();
    assert_eq!(
        dh::data::close(writer),
        vec![0xff, 0xfe, 0xfe, 0xff, 0xfe, 0xff]
    );
}

#[test]
fn signed_varint_size_sixteen_round_trips() {
    let mut rw = dh::data::rw_empty();
    rw.write_vixle(16, -1).unwrap();
    assert_eq!(rw.size().unwrap(), 16);
    rw.rewind().unwrap();
    assert_eq!(rw.read_vixle(16).unwrap(), -1);
}
