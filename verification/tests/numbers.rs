use bin_io::numbers::{
    be_i16, be_i32, be_i64, be_i8, be_u16, be_u32, be_u64, be_u8, le_i16, le_i32, le_i64, le_i8,
    le_u16, le_u32, le_u64, le_u8,
};
use bin_io::{read, BinError, ReadFn, Sink, Source, WriteFn};

fn written<I: vstd::view::DeepView, Rf, Wf: WriteFn<I>>(value: I, codec: (Rf, Wf)) -> Vec<u8> {
    let mut sink = Sink::new();
    bin_io::write(&mut sink, &value, codec).unwrap();
    sink.into_inner()
}

fn read_back<I: vstd::view::DeepView, Rf: ReadFn<I>, Wf>(bytes: Vec<u8>, codec: (Rf, Wf)) -> I {
    let len = bytes.len();
    let mut source = Source::new(bytes);
    let value = read(&mut source, codec).unwrap();
    assert_eq!(source.pos(), len);
    value
}

#[test]
fn unsigned_bytes_come_back() {
    for v in [0u8, 1, 0x7f, 0x80, u8::MAX] {
        assert_eq!(written(v, be_u8()), vec![v]);
        assert_eq!(read_back(written(v, be_u8()), be_u8()), v);
        assert_eq!(read_back(written(v, le_u8()), le_u8()), v);
    }
}

#[test]
fn signed_bytes_come_back() {
    for v in [0i8, 1, -1, i8::MIN, i8::MAX] {
        assert_eq!(read_back(written(v, be_i8()), be_i8()), v);
        assert_eq!(read_back(written(v, le_i8()), le_i8()), v);
    }
    assert_eq!(written(-1i8, be_i8()), vec![0xff]);
    assert_eq!(written(i8::MIN, le_i8()), vec![0x80]);
    assert_eq!(read_back(vec![0xfe], be_i8()), -2i8);
    assert_eq!(read_back(vec![0x7f], le_i8()), 127i8);
}

#[test]
fn numbers_of_16_bits_come_back() {
    for v in [0u16, 1, 0x0102, 0x8000, u16::MAX] {
        assert_eq!(read_back(written(v, be_u16()), be_u16()), v);
        assert_eq!(read_back(written(v, le_u16()), le_u16()), v);
    }
    for v in [0i16, 1, -1, i16::MIN, i16::MAX] {
        assert_eq!(read_back(written(v, be_i16()), be_i16()), v);
        assert_eq!(read_back(written(v, le_i16()), le_i16()), v);
    }
}

#[test]
fn numbers_of_32_bits_come_back() {
    for v in [0u32, 1, 0x0102_0304, 0x8000_0000, u32::MAX] {
        assert_eq!(read_back(written(v, be_u32()), be_u32()), v);
        assert_eq!(read_back(written(v, le_u32()), le_u32()), v);
    }
    for v in [0i32, 1, -1, i32::MIN, i32::MAX] {
        assert_eq!(read_back(written(v, be_i32()), be_i32()), v);
        assert_eq!(read_back(written(v, le_i32()), le_i32()), v);
    }
}

#[test]
fn numbers_of_64_bits_come_back() {
    for v in [0u64, 1, 0x0102_0304_0506_0708, 0x8000_0000_0000_0000, u64::MAX] {
        assert_eq!(read_back(written(v, be_u64()), be_u64()), v);
        assert_eq!(read_back(written(v, le_u64()), le_u64()), v);
    }
    for v in [0i64, 1, -1, i64::MIN, i64::MAX] {
        assert_eq!(read_back(written(v, be_i64()), be_i64()), v);
        assert_eq!(read_back(written(v, le_i64()), le_i64()), v);
    }
}

#[test]
fn sixteen_bits_stand_in_the_order_asked_for() {
    assert_eq!(written(0x0102u16, be_u16()), vec![0x01, 0x02]);
    assert_eq!(written(0x0102u16, le_u16()), vec![0x02, 0x01]);
    assert_eq!(written(-2i16, be_i16()), vec![0xff, 0xfe]);
    assert_eq!(written(-2i16, le_i16()), vec![0xfe, 0xff]);
}

#[test]
fn thirty_two_bits_stand_in_the_order_asked_for() {
    assert_eq!(written(0x0102_0304u32, be_u32()), vec![1, 2, 3, 4]);
    assert_eq!(written(0x0102_0304u32, le_u32()), vec![4, 3, 2, 1]);
    assert_eq!(written(-2i32, be_i32()), vec![0xff, 0xff, 0xff, 0xfe]);
    assert_eq!(written(-2i32, le_i32()), vec![0xfe, 0xff, 0xff, 0xff]);
}

#[test]
fn sixty_four_bits_stand_in_the_order_asked_for() {
    assert_eq!(written(0x0102_0304_0506_0708u64, be_u64()), vec![1, 2, 3, 4, 5, 6, 7, 8]);
    assert_eq!(written(0x0102_0304_0506_0708u64, le_u64()), vec![8, 7, 6, 5, 4, 3, 2, 1]);
    assert_eq!(written(-2i64, be_i64()), vec![0xff, 0xff, 0xff, 0xff, 0xff, 0xff, 0xff, 0xfe]);
    assert_eq!(written(-2i64, le_i64()), vec![0xfe, 0xff, 0xff, 0xff, 0xff, 0xff, 0xff, 0xff]);
}

#[test]
fn unsigned_numbers_are_read_in_the_order_asked_for() {
    assert_eq!(read_back(vec![0x01, 0x02], be_u16()), 0x0102u16);
    assert_eq!(read_back(vec![0x01, 0x02], le_u16()), 0x0201u16);
    assert_eq!(read_back(vec![1, 2, 3, 4], be_u32()), 0x0102_0304u32);
    assert_eq!(read_back(vec![1, 2, 3, 4], le_u32()), 0x0403_0201u32);
    assert_eq!(read_back(vec![1, 2, 3, 4, 5, 6, 7, 8], be_u64()), 0x0102_0304_0506_0708u64);
    assert_eq!(read_back(vec![1, 2, 3, 4, 5, 6, 7, 8], le_u64()), 0x0807_0605_0403_0201u64);
}

#[test]
fn signed_numbers_are_read_in_the_order_asked_for() {
    assert_eq!(read_back(vec![0x00, 0xc1], be_i16()), 193i16);
    assert_eq!(read_back(vec![0xff, 0x7c], be_i16()), -132i16);
    assert_eq!(read_back(vec![0x7c, 0xff], le_i16()), -132i16);
    assert_eq!(read_back(vec![0xff, 0xff, 0xff, 0x7c], be_i32()), -132i32);
    assert_eq!(read_back(vec![0x7c, 0xff, 0xff, 0xff], le_i32()), -132i32);
    assert_eq!(read_back(vec![0x80, 0, 0, 0], be_i32()), i32::MIN);
    assert_eq!(
        read_back(vec![0xff, 0xff, 0xff, 0xff, 0xff, 0xff, 0xff, 0x7c], be_i64()),
        -132i64
    );
    assert_eq!(
        read_back(vec![0x7c, 0xff, 0xff, 0xff, 0xff, 0xff, 0xff, 0xff], le_i64()),
        -132i64
    );
}

#[test]
fn a_number_takes_its_width_and_no_more() {
    let mut source = Source::new(vec![0x80, 1, 2, 3, 4, 5, 6, 7, 8, 9]);
    assert_eq!(read(&mut source, be_u8()), Ok(0x80u8));
    assert_eq!(source.pos(), 1);
    assert_eq!(read(&mut source, be_u16()), Ok(0x0102u16));
    assert_eq!(source.pos(), 3);
    assert_eq!(read(&mut source, le_u32()), Ok(0x0605_0403u32));
    assert_eq!(source.pos(), 7);
    assert_eq!(read(&mut source, be_i16()), Ok(0x0708i16));
    assert_eq!(source.pos(), 9);
}

#[test]
fn a_short_source_fails_a_number() {
    let mut source = Source::new(vec![1]);
    assert_eq!(read(&mut source, be_u16()), Err(BinError::UnexpectedEof));
    assert_eq!(source.pos(), 1);
    let mut source = Source::new(vec![1, 2, 3]);
    assert_eq!(read(&mut source, le_i32()), Err(BinError::UnexpectedEof));
    let mut source = Source::new(vec![1, 2, 3, 4, 5, 6, 7]);
    assert_eq!(read(&mut source, be_u64()), Err(BinError::UnexpectedEof));
    let mut source = Source::new(Vec::new());
    assert_eq!(read(&mut source, be_i8()), Err(BinError::UnexpectedEof));
    assert_eq!(source.pos(), 0);
}

#[test]
fn every_number_fits_its_codec() {
    let mut sink = Sink::new();
    assert_eq!(bin_io::write_if_fits(&mut sink, &u64::MAX, be_u64()), Some(Ok(())));
    assert_eq!(bin_io::write_if_fits(&mut sink, &i8::MIN, be_i8()), Some(Ok(())));
    assert_eq!(sink.into_inner(), vec![0xff, 0xff, 0xff, 0xff, 0xff, 0xff, 0xff, 0xff, 0x80]);
}
