use bin_io::numbers::{be_i16, be_i32, be_u16, be_u8, le_u16};
use bin_io::strings::null_utf8;
use bin_io::{
    bind, boolean, cast, count, optional, read, skip, try_cast, write_if_fits, BinError, Sink,
    Source,
};
use vstd::view::DeepView;

#[derive(Clone, Copy, Debug, PartialEq, Eq)]
struct Celsius(i16);

impl DeepView for Celsius {
    type V = Celsius;

    fn deep_view(&self) -> Celsius {
        *self
    }
}

impl From<i16> for Celsius {
    fn from(degrees: i16) -> Celsius {
        Celsius(degrees)
    }
}

impl From<Celsius> for i16 {
    fn from(value: Celsius) -> i16 {
        value.0
    }
}

#[test]
fn bound_value_is_checked_and_one_value_is_read() {
    let mut source = Source::new(vec![0x50, 0x99]);
    assert_eq!(read(&mut source, bind(be_u8(), 0x50)), Ok(()));
    assert_eq!(source.pos(), 1);
}

#[test]
fn another_value_fails_the_check_after_it_is_read() {
    let mut source = Source::new(vec![0x51, 0x99]);
    assert_eq!(read(&mut source, bind(be_u8(), 0x50)), Err(BinError::CheckFail));
    assert_eq!(source.pos(), 1);
}

#[test]
fn bound_value_of_two_bytes_is_checked_whole() {
    let mut source = Source::new(vec![0x06, 0x15, 0x15, 0x06]);
    assert_eq!(read(&mut source, bind(be_u16(), 1557)), Ok(()));
    assert_eq!(read(&mut source, bind(be_u16(), 1557)), Err(BinError::CheckFail));
    assert_eq!(source.pos(), 4);
}

#[test]
fn bound_value_is_what_is_written() {
    let mut sink = Sink::new();
    bin_io::write(&mut sink, &(), bind(be_u8(), 0x50)).unwrap();
    bin_io::write(&mut sink, &(), bind(le_u16(), 0x0102)).unwrap();
    assert_eq!(sink.into_inner(), vec![0x50, 0x02, 0x01]);
}

#[test]
fn bound_text_is_checked() {
    let mut source = Source::new(vec![0x46, 0x6f, 0x6f, 0x00, 0x42, 0x00]);
    assert_eq!(read(&mut source, bind(null_utf8(), String::from("Foo"))), Ok(()));
    assert_eq!(
        read(&mut source, bind(null_utf8(), String::from("Foo"))),
        Err(BinError::CheckFail)
    );
}

#[test]
fn a_missing_value_fails_the_bound_field() {
    let mut source = Source::new(Vec::new());
    assert_eq!(read(&mut source, bind(be_u8(), 0x50)), Err(BinError::UnexpectedEof));
}

#[test]
fn skipped_value_is_read_and_dropped() {
    let mut source = Source::new(vec![0x12, 0x34, 0x56]);
    assert_eq!(read(&mut source, skip(be_u16(), 1557)), Ok(()));
    assert_eq!(source.pos(), 2);
    assert_eq!(read(&mut source, skip(be_u16(), 1557)), Err(BinError::UnexpectedEof));
}

#[test]
fn skipped_field_is_written_with_its_value() {
    let mut sink = Sink::new();
    bin_io::write(&mut sink, &(), skip(be_u8(), 0x50)).unwrap();
    bin_io::write(&mut sink, &(), skip(be_u16(), 1557)).unwrap();
    assert_eq!(sink.into_inner(), vec![0x50, 0x06, 0x15]);
}

#[test]
fn counted_values_are_read_in_order() {
    let mut source =
        Source::new(vec![0, 0, 0, 1, 0xff, 0xff, 0xff, 0xfe, 0x01, 0x02, 0x03, 0x04, 0x99]);
    assert_eq!(read(&mut source, count(be_i32(), 3)), Ok(vec![1, -2, 0x0102_0304]));
    assert_eq!(source.pos(), 12);
}

#[test]
fn counted_values_are_written_in_order() {
    let mut sink = Sink::new();
    bin_io::write(&mut sink, &vec![10u8, 20, 30], count(be_u8(), 3)).unwrap();
    bin_io::write(&mut sink, &vec![1i32, -2], count(be_i32(), 2)).unwrap();
    assert_eq!(sink.into_inner(), vec![10, 20, 30, 0, 0, 0, 1, 0xff, 0xff, 0xff, 0xfe]);
}

#[test]
fn no_values_take_no_bytes() {
    let mut source = Source::new(vec![1, 2]);
    assert_eq!(read(&mut source, count(be_u16(), 0)), Ok(Vec::new()));
    assert_eq!(source.pos(), 0);
    let mut sink = Sink::new();
    bin_io::write(&mut sink, &Vec::new(), count(be_u16(), 0)).unwrap();
    assert_eq!(sink.as_slice().len(), 0);
}

#[test]
fn counted_values_stop_at_the_first_that_fails() {
    let mut source = Source::new(vec![0, 1, 0, 2, 0]);
    assert_eq!(read(&mut source, count(be_u16(), 3)), Err(BinError::UnexpectedEof));
    assert_eq!(source.pos(), 5);
    let mut source = Source::new(vec![1, 2, 1, 1]);
    assert_eq!(read(&mut source, count(bind(be_u8(), 1), 3)), Err(BinError::CheckFail));
    assert_eq!(source.pos(), 2);
}

#[test]
fn another_number_of_values_does_not_fit() {
    let mut sink = Sink::new();
    assert_eq!(write_if_fits(&mut sink, &vec![1i32, 2], count(be_i32(), 3)), None);
    assert_eq!(write_if_fits(&mut sink, &vec![1i32, 2, 3, 4], count(be_i32(), 3)), None);
    assert_eq!(sink.as_slice().len(), 0);
    assert_eq!(write_if_fits(&mut sink, &vec![1i32, 2, 3], count(be_i32(), 3)), Some(Ok(())));
    assert_eq!(sink.as_slice().len(), 12);
}

#[test]
fn values_that_do_not_fit_make_the_sequence_unfit() {
    let mut sink = Sink::new();
    let lists = vec![vec![1u8, 2], vec![3u8]];
    assert_eq!(write_if_fits(&mut sink, &lists, count(count(be_u8(), 2), 2)), None);
    let lists = vec![vec![1u8, 2], vec![3u8, 4]];
    assert_eq!(write_if_fits(&mut sink, &lists, count(count(be_u8(), 2), 2)), Some(Ok(())));
    assert_eq!(sink.into_inner(), vec![1, 2, 3, 4]);
}

#[test]
fn absent_value_takes_no_bytes() {
    let mut source = Source::new(vec![7, 8]);
    assert_eq!(read(&mut source, optional(be_u8(), false)), Ok(None));
    assert_eq!(source.pos(), 0);
    let mut source = Source::new(Vec::new());
    assert_eq!(read(&mut source, optional(be_u16(), false)), Ok(None));
}

#[test]
fn present_value_is_read() {
    let mut source = Source::new(vec![7, 8]);
    assert_eq!(read(&mut source, optional(be_u8(), true)), Ok(Some(7)));
    assert_eq!(source.pos(), 1);
    let mut source = Source::new(vec![7]);
    assert_eq!(read(&mut source, optional(be_u16(), true)), Err(BinError::UnexpectedEof));
}

#[test]
fn optional_value_is_written_where_it_is_present() {
    let mut sink = Sink::new();
    bin_io::write(&mut sink, &Some(7u8), optional(be_u8(), true)).unwrap();
    bin_io::write(&mut sink, &None, optional(be_u8(), false)).unwrap();
    assert_eq!(sink.into_inner(), vec![7]);
}

#[test]
fn optional_value_fits_only_as_the_flag_says() {
    let mut sink = Sink::new();
    assert_eq!(write_if_fits(&mut sink, &Some(7u8), optional(be_u8(), false)), None);
    assert_eq!(write_if_fits(&mut sink, &None, optional(be_u8(), true)), None);
    assert_eq!(sink.as_slice().len(), 0);
    assert_eq!(write_if_fits(&mut sink, &Some(7u8), optional(be_u8(), true)), Some(Ok(())));
    assert_eq!(write_if_fits(&mut sink, &None, optional(be_u8(), false)), Some(Ok(())));
    assert_eq!(sink.into_inner(), vec![7]);
}

#[test]
fn truth_values_are_read_from_their_two_values() {
    let mut source = Source::new(vec![0x00, 0x01, 0x02, 0x03]);
    assert_eq!(read(&mut source, boolean(be_u8(), 0x01, 0x00)), Ok(false));
    assert_eq!(read(&mut source, boolean(be_u8(), 0x01, 0x00)), Ok(true));
    assert_eq!(read(&mut source, boolean(be_u8(), 0x01, 0x00)), Err(BinError::CheckFail));
    assert_eq!(source.pos(), 3);
}

#[test]
fn truth_values_are_written_as_their_two_values() {
    let mut sink = Sink::new();
    bin_io::write(&mut sink, &true, boolean(be_u8(), 0x01, 0x00)).unwrap();
    bin_io::write(&mut sink, &false, boolean(be_u8(), 0x01, 0x00)).unwrap();
    bin_io::write(&mut sink, &true, boolean(be_u16(), 0xffff, 0x00ff)).unwrap();
    assert_eq!(sink.into_inner(), vec![0x01, 0x00, 0xff, 0xff]);
}

#[test]
fn the_value_of_true_is_tried_first() {
    let mut source = Source::new(vec![0x05]);
    assert_eq!(read(&mut source, boolean(be_u8(), 0x05, 0x05)), Ok(true));
}

#[test]
fn a_missing_value_fails_the_truth_value() {
    let mut source = Source::new(Vec::new());
    assert_eq!(read(&mut source, boolean(be_u8(), 0x01, 0x00)), Err(BinError::UnexpectedEof));
}

#[test]
fn converted_value_is_read() {
    let mut source = Source::new(vec![0xff, 0xfb]);
    let read_value: Result<Celsius, BinError> = read(&mut source, cast(be_i16()));
    assert_eq!(read_value, Ok(Celsius(-5)));
    assert_eq!(source.pos(), 2);
}

#[test]
fn converted_value_is_written() {
    let mut sink = Sink::new();
    bin_io::write(&mut sink, &Celsius(-5), cast(be_i16())).unwrap();
    assert_eq!(sink.into_inner(), vec![0xff, 0xfb]);
}

#[test]
fn a_failed_read_fails_the_conversion() {
    let mut source = Source::new(vec![0xff]);
    let read_value: Result<Celsius, BinError> = read(&mut source, cast(be_i16()));
    assert_eq!(read_value, Err(BinError::UnexpectedEof));
}

#[test]
fn value_that_converts_is_written() {
    let mut sink = Sink::new();
    assert_eq!(bin_io::write(&mut sink, &20usize, try_cast(be_u8())), Ok(()));
    assert_eq!(sink.into_inner(), vec![20]);
}

#[test]
fn value_that_does_not_convert_fails_the_cast_and_writes_nothing() {
    let mut sink = Sink::new();
    assert_eq!(bin_io::write(&mut sink, &256usize, try_cast(be_u8())), Err(BinError::CastFail));
    assert_eq!(sink.as_slice().len(), 0);
}

#[test]
fn value_read_is_converted() {
    let mut source = Source::new(vec![200, 0xff, 0xff]);
    let length: Result<usize, BinError> = read(&mut source, try_cast(be_u8()));
    assert_eq!(length, Ok(200));
    let small: Result<u8, BinError> = read(&mut source, try_cast(be_u16()));
    assert_eq!(small, Err(BinError::CastFail));
    assert_eq!(source.pos(), 3);
}

#[test]
fn value_that_does_not_convert_still_fits() {
    let mut sink = Sink::new();
    assert_eq!(
        write_if_fits(&mut sink, &256usize, try_cast(be_u8())),
        Some(Err(BinError::CastFail))
    );
    assert_eq!(sink.as_slice().len(), 0);
}

#[test]
fn a_failed_element_stops_the_writing_of_a_sequence() {
    let mut sink = Sink::new();
    let values = vec![1usize, 256, 3];
    assert_eq!(
        bin_io::write(&mut sink, &values, count(try_cast(be_u8()), 3)),
        Err(BinError::CastFail)
    );
    assert_eq!(sink.into_inner(), vec![1]);
}
