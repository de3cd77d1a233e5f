use dh::{ReadVal, Seekable};

#[test]
fn copy_from_to() {
    let mut source = dh::data::read(vec![1u8; 8]);
    let mut target = dh::data::write_new(8);

    source.copy(4, &mut target, 1024).unwrap();

    assert_eq!(dh::data::close(target), vec![1, 1, 1, 1, 0, 0, 0, 0]);
}

#[test]
fn copy_frompos_to() {
    let mut source = dh::data::read(vec![0u8, 0, 0, 0, 1, 1, 1, 1]);
    let mut target = dh::data::write_new(8);

    source.copy_at(4, 2, &mut target, 1024).unwrap();

    assert_eq!(dh::data::close(target), vec![1, 1, 0, 0, 0, 0, 0, 0]);
}

#[test]
fn copy_from_topos() {
    let mut source = dh::data::read(vec![1u8; 8]);
    let mut target = dh::data::write_new(8);

    source.copy_to(2, 4, &mut target, 1024).unwrap();

    assert_eq!(dh::data::close(target), vec![0, 0, 1, 1, 1, 1, 0, 0]);
}

#[test]
fn copy_frompos_topos() {
    let mut source = dh::data::read(vec![0u8, 0, 0, 0, 1, 1, 1, 1]);
    let mut target = dh::data::write_new(8);

    source.copy_to_at(4, 2, 2, &mut target, 1024).unwrap();

    assert_eq!(dh::data::close(target), vec![0, 0, 1, 1, 0, 0, 0, 0]);
}

#[test]
fn copy_chunked_from_to() {
    let mut source = dh::data::read(vec![1u8; 8]);
    let mut target = dh::data::write_new(8);

    source.copy_chunked(4, &mut target, 2).unwrap();

    assert_eq!(dh::data::close(target), vec![1, 1, 1, 1, 0, 0, 0, 0]);
}

#[test]
fn copy_chunked_frompos_to() {
    let mut source = dh::data::read(vec![0u8, 0, 0, 0, 1, 1, 1, 1]);
    let mut target = dh::data::write_new(8);

    source.copy_chunked_at(4, 2, &mut target, 2).unwrap();

    assert_eq!(dh::data::close(target), vec![1, 1, 0, 0, 0, 0, 0, 0]);
}

#[test]
fn copy_chunked_from_topos() {
    let mut source = dh::data::read(vec![1u8; 8]);
    let mut target = dh::data::write_new(8);

    source.copy_chunked_to(2, 4, &mut target, 2).unwrap();

    assert_eq!(dh::data::close(target), vec![0, 0, 1, 1, 1, 1, 0, 0]);
}

#[test]
fn copy_chunked_frompos_topos() {
    let mut source = dh::data::read(vec![0u8, 0, 0, 0, 1, 1, 1, 1]);
    let mut target = dh::data::write_new(8);

    source.copy_chunked_to_at(4, 2, 2, &mut target, 2).unwrap();

    assert_eq!(dh::data::close(target), vec![0, 0, 1, 1, 0, 0, 0, 0]);
}

#[test]
fn copy_restores_source_position() {
    let mut source = dh::data::read(vec![9u8, 8, 7, 6, 5, 4, 3, 2]);
    let mut target = dh::data::write_new(4);

    source.jump(1).unwrap();
    source.copy_at(4, 3, &mut target, 2).unwrap();

    assert_eq!(source.pos().unwrap(), 1);
    assert_eq!(dh::data::close(target), vec![5, 4, 3, 0]);
}
