use bin_io::numbers::{be_i16, be_i32, be_u16, be_u64, be_u8, le_u16, le_u32};
use bin_io::sequence::{bound, count_by, keyless, optional_by, pair, prefixed, suffixed};
use bin_io::strings::{len_utf8, null_utf16};
use bin_io::{
    bind, boolean, cast, count, read, skip, try_cast, write_if_fits, BinError, Sink, Source,
};
use vstd::view::DeepView;

#[derive(Clone, Debug, PartialEq, Eq)]
struct Thing {
    a: u8,
    b: u16,
}

impl DeepView for Thing {
    type V = Thing;

    fn deep_view(&self) -> Thing {
        self.clone()
    }
}

impl From<(u8, u16)> for Thing {
    fn from(fields: (u8, u16)) -> Thing {
        Thing { a: fields.0, b: fields.1 }
    }
}

impl From<Thing> for (u8, u16) {
    fn from(thing: Thing) -> (u8, u16) {
        (thing.a, thing.b)
    }
}

#[derive(Clone, Debug, PartialEq, Eq)]
struct Samples {
    a: Vec<i16>,
}

impl DeepView for Samples {
    type V = Samples;

    fn deep_view(&self) -> Samples {
        self.clone()
    }
}

impl From<(u8, Vec<i16>)> for Samples {
    fn from(fields: (u8, Vec<i16>)) -> Samples {
        Samples { a: fields.1 }
    }
}

impl From<Samples> for (u8, Vec<i16>) {
    fn from(samples: Samples) -> (u8, Vec<i16>) {
        (samples.a.len() as u8, samples.a)
    }
}

#[test]
fn record_of_two_fields_reads_in_declared_order() {
    let mut source = Source::new(vec![0x10, 0x00, 0x20]);
    let thing: Thing = read(&mut source, cast(pair(be_u8(), be_u16()))).unwrap();
    assert_eq!(thing, Thing { a: 0x10, b: 0x20 });
    assert_eq!(source.pos(), 3);
}

#[test]
fn record_of_two_fields_writes_in_declared_order() {
    let mut sink = Sink::new();
    let thing = Thing { a: 0x10, b: 0x20 };
    bin_io::write(&mut sink, &thing, cast(pair(be_u8(), be_u16()))).unwrap();
    assert_eq!(sink.into_inner(), vec![0x10, 0x00, 0x20]);
}

#[test]
fn record_of_two_fields_comes_back() {
    let thing = Thing { a: 0xfe, b: 0x0102 };
    let mut sink = Sink::new();
    bin_io::write(&mut sink, &thing, cast(pair(be_u8(), be_u16()))).unwrap();
    let mut source = Source::new(sink.into_inner());
    let back: Thing = read(&mut source, cast(pair(be_u8(), be_u16()))).unwrap();
    assert_eq!(back, thing);
}

#[test]
fn two_fields_are_read_one_after_the_other() {
    let mut source = Source::new(vec![0x10, 0x00, 0x20, 0x99]);
    assert_eq!(read(&mut source, pair(be_u8(), be_u16())), Ok((0x10, 0x20)));
    assert_eq!(source.pos(), 3);
    let mut source = Source::new(vec![0x10, 0x00, 0x20, 0x99]);
    assert_eq!(read(&mut source, pair(be_u16(), be_u8())), Ok((0x1000, 0x20)));
}

#[test]
fn first_failure_ends_the_reading_of_two_fields() {
    let mut source = Source::new(vec![0x10, 0x00]);
    assert_eq!(read(&mut source, pair(be_u8(), be_u16())), Err(BinError::UnexpectedEof));
    assert_eq!(source.pos(), 2);
    let mut source = Source::new(vec![0x10, 0x00, 0x20]);
    assert_eq!(
        read(&mut source, pair(bind(be_u8(), 0x11), be_u16())),
        Err(BinError::CheckFail)
    );
    assert_eq!(source.pos(), 1);
}

#[test]
fn first_failure_ends_the_writing_of_two_fields() {
    let mut sink = Sink::new();
    let fields = (300usize, 7u8);
    assert_eq!(
        bin_io::write(&mut sink, &fields, pair(try_cast(be_u8()), be_u8())),
        Err(BinError::CastFail)
    );
    assert_eq!(sink.as_slice().len(), 0);
    let fields = (7u8, 300usize);
    assert_eq!(
        bin_io::write(&mut sink, &fields, pair(be_u8(), try_cast(be_u8()))),
        Err(BinError::CastFail)
    );
    assert_eq!(sink.into_inner(), vec![7]);
}

#[test]
fn three_fields_nest() {
    let codec = pair(be_u8(), pair(le_u16(), be_i16()));
    let mut source = Source::new(vec![1, 2, 0, 0xff, 0xff]);
    assert_eq!(read(&mut source, codec), Ok((1, (2, -1))));
    let mut sink = Sink::new();
    bin_io::write(&mut sink, &(1u8, (2u16, -1i16)), pair(be_u8(), pair(le_u16(), be_i16()))).unwrap();
    assert_eq!(sink.into_inner(), vec![1, 2, 0, 0xff, 0xff]);
}

#[test]
fn field_behind_a_magic_number_is_read() {
    let mut source = Source::new(vec![0x50, 0x07]);
    assert_eq!(read(&mut source, prefixed(bind(be_u8(), 0x50), be_u8())), Ok(7));
    assert_eq!(source.pos(), 2);
    let mut source = Source::new(vec![0x51, 0x07]);
    assert_eq!(
        read(&mut source, prefixed(bind(be_u8(), 0x50), be_u8())),
        Err(BinError::CheckFail)
    );
    assert_eq!(source.pos(), 1);
}

#[test]
fn field_behind_a_magic_number_is_written_behind_it() {
    let mut sink = Sink::new();
    bin_io::write(&mut sink, &7u8, prefixed(bind(be_u8(), 0x50), be_u8())).unwrap();
    assert_eq!(sink.into_inner(), vec![0x50, 0x07]);
}

#[test]
fn field_before_padding_is_read() {
    let mut source = Source::new(vec![0x07, 0xaa, 0xbb, 0xcc]);
    assert_eq!(read(&mut source, suffixed(be_u8(), skip(be_u16(), 0))), Ok(7));
    assert_eq!(source.pos(), 3);
    let mut source = Source::new(vec![0x07, 0xaa]);
    assert_eq!(
        read(&mut source, suffixed(be_u8(), skip(be_u16(), 0))),
        Err(BinError::UnexpectedEof)
    );
}

#[test]
fn field_before_padding_is_written_before_it() {
    let mut sink = Sink::new();
    bin_io::write(&mut sink, &7u8, suffixed(be_u8(), skip(be_u16(), 0x0102))).unwrap();
    assert_eq!(sink.into_inner(), vec![0x07, 0x01, 0x02]);
}

#[test]
fn length_decides_how_many_values_follow() {
    let mut source = Source::new(vec![0x2, 0x0, 0x50, 0x0, 0x60, 0x99]);
    let codec = bound(be_u8(), count_by(be_i16()));
    assert_eq!(read(&mut source, codec), Ok((2u8, vec![0x50i16, 0x60])));
    assert_eq!(source.pos(), 5);
}

#[test]
fn length_of_any_width_decides_how_many_values_follow() {
    let mut source = Source::new(vec![0, 2, 7, 8, 2, 0, 0, 0, 7, 8, 0, 0, 0, 0, 0, 0, 0, 1, 9]);
    assert_eq!(read(&mut source, bound(be_u16(), count_by(be_u8()))), Ok((2u16, vec![7u8, 8])));
    assert_eq!(read(&mut source, bound(le_u32(), count_by(be_u8()))), Ok((2u32, vec![7u8, 8])));
    assert_eq!(read(&mut source, bound(be_u64(), count_by(be_u8()))), Ok((1u64, vec![9u8])));
    assert_eq!(source.pos(), 19);
}

#[test]
fn length_converted_to_another_type_decides_too() {
    let mut source = Source::new(vec![0x2, 0x0, 0x50, 0x0, 0x60, 0x99]);
    let codec = bound(try_cast(be_u8()), count_by(be_i16()));
    assert_eq!(read(&mut source, codec), Ok((2usize, vec![0x50i16, 0x60])));
    assert_eq!(source.pos(), 5);
}

#[test]
fn length_is_written_before_the_values() {
    let mut sink = Sink::new();
    let codec = bound(be_u8(), count_by(be_i16()));
    bin_io::write(&mut sink, &(2u8, vec![0x50i16, 0x60]), codec).unwrap();
    assert_eq!(sink.into_inner(), vec![0x2, 0x0, 0x50, 0x0, 0x60]);
}

#[test]
fn values_must_be_as_many_as_the_length() {
    let mut sink = Sink::new();
    let codec = bound(be_u8(), count_by(be_i16()));
    assert_eq!(write_if_fits(&mut sink, &(3u8, vec![0x50i16, 0x60]), codec), None);
    let codec = bound(be_u64(), count_by(be_i16()));
    assert_eq!(write_if_fits(&mut sink, &(u64::MAX, vec![0x50i16, 0x60]), codec), None);
    assert_eq!(sink.as_slice().len(), 0);
}

#[test]
fn too_few_values_fail_the_sequence() {
    let mut source = Source::new(vec![0x3, 0x0, 0x50, 0x0, 0x60]);
    let codec = bound(be_u8(), count_by(be_i16()));
    assert_eq!(read(&mut source, codec), Err(BinError::UnexpectedEof));
    assert_eq!(source.pos(), 5);
}

#[test]
fn a_length_beyond_the_source_fails_at_its_end() {
    let mut source = Source::new(vec![0xff, 0xff, 0xff, 0xff, 0xff, 0xff, 0xff, 0xff, 1, 2]);
    let codec = bound(be_u64(), count_by(be_u8()));
    assert_eq!(read(&mut source, codec), Err(BinError::UnexpectedEof));
    assert_eq!(source.pos(), 10);
}

#[test]
fn record_with_a_length_that_it_does_not_keep() {
    let mut source = Source::new(vec![0x2, 0x0, 0x50, 0x0, 0x60]);
    let samples: Samples = read(&mut source, cast(bound(be_u8(), count_by(be_i16())))).unwrap();
    assert_eq!(samples, Samples { a: vec![0x50, 0x60] });

    let mut sink = Sink::new();
    let samples = Samples { a: vec![1, 2, 3] };
    bin_io::write(&mut sink, &samples, cast(bound(be_u8(), count_by(be_i16())))).unwrap();
    assert_eq!(sink.into_inner(), vec![3, 0, 1, 0, 2, 0, 3]);
}

#[test]
fn flag_decides_whether_a_value_follows() {
    let mut source = Source::new(vec![0]);
    let codec = bound(boolean(be_u8(), 1, 0), optional_by(be_u8()));
    assert_eq!(read(&mut source, codec), Ok((false, None)));
    assert_eq!(source.pos(), 1);
    let mut source = Source::new(vec![1, 9]);
    let codec = bound(boolean(be_u8(), 1, 0), optional_by(be_u8()));
    assert_eq!(read(&mut source, codec), Ok((true, Some(9))));
    assert_eq!(source.pos(), 2);
}

#[test]
fn flag_is_written_before_the_value() {
    let mut sink = Sink::new();
    let codec = bound(boolean(be_u8(), 1, 0), optional_by(be_u8()));
    bin_io::write(&mut sink, &(true, Some(9u8)), codec).unwrap();
    let codec = bound(boolean(be_u8(), 1, 0), optional_by(be_u8()));
    bin_io::write(&mut sink, &(false, None), codec).unwrap();
    assert_eq!(sink.into_inner(), vec![1, 9, 0]);
}

#[test]
fn value_must_be_there_as_the_flag_says() {
    let mut sink = Sink::new();
    let codec = bound(boolean(be_u8(), 1, 0), optional_by(be_u8()));
    assert_eq!(write_if_fits(&mut sink, &(false, Some(9u8)), codec), None);
    let codec = bound(boolean(be_u8(), 1, 0), optional_by(be_u8()));
    assert_eq!(write_if_fits(&mut sink, &(true, None), codec), None);
    assert_eq!(sink.as_slice().len(), 0);
}

#[test]
fn record_of_many_kinds_of_fields_comes_back() {
    let codec = prefixed(
        bind(be_u8(), 0x50),
        pair(be_u8(), pair(bound(le_u16(), count_by(be_i32())), null_utf16())),
    );
    let value = (7u8, ((2u16, vec![1i32, -1]), String::from("hi")));
    let mut sink = Sink::new();
    bin_io::write(&mut sink, &value, codec).unwrap();
    let bytes = sink.into_inner();
    assert_eq!(
        bytes,
        vec![0x50, 7, 2, 0, 0, 0, 0, 1, 0xff, 0xff, 0xff, 0xff, 0, 0x68, 0, 0x69, 0, 0]
    );
    let codec = prefixed(
        bind(be_u8(), 0x50),
        pair(be_u8(), pair(bound(le_u16(), count_by(be_i32())), null_utf16())),
    );
    let mut source = Source::new(bytes);
    assert_eq!(read(&mut source, codec), Ok(value));
    assert_eq!(source.pos(), 18);
}

#[test]
fn key_reaches_a_field_behind_other_fields() {
    let codec = bound(
        be_u8(),
        pair(keyless(bind(be_u8(), 0xaa)), pair(count_by(be_u8()), keyless(be_u16()))),
    );
    let mut source = Source::new(vec![2, 0xaa, 7, 8, 0x01, 0x02, 0x99]);
    assert_eq!(read(&mut source, codec), Ok((2u8, ((), (vec![7u8, 8], 0x0102u16)))));
    assert_eq!(source.pos(), 6);

    let codec = bound(
        be_u8(),
        pair(keyless(bind(be_u8(), 0xaa)), pair(count_by(be_u8()), keyless(be_u16()))),
    );
    let mut sink = Sink::new();
    bin_io::write(&mut sink, &(2u8, ((), (vec![7u8, 8], 0x0102u16))), codec).unwrap();
    assert_eq!(sink.into_inner(), vec![2, 0xaa, 7, 8, 0x01, 0x02]);
}

#[test]
fn key_decides_for_every_field_that_asks_it() {
    let codec = bound(be_u8(), pair(count_by(be_u8()), count_by(be_u16())));
    let mut source = Source::new(vec![1, 7, 0, 9, 0x99]);
    assert_eq!(read(&mut source, codec), Ok((1u8, (vec![7u8], vec![9u16]))));
    let codec = bound(be_u8(), pair(count_by(be_u8()), count_by(be_u16())));
    let mut sink = Sink::new();
    assert_eq!(write_if_fits(&mut sink, &(1u8, (vec![7u8], vec![9u16, 10])), codec), None);
    assert_eq!(sink.as_slice().len(), 0);
}

#[test]
fn a_field_that_is_never_written_need_not_fit() {
    let mut sink = Sink::new();
    let fields = (300usize, String::from("too long"));
    assert_eq!(
        write_if_fits(&mut sink, &fields, pair(try_cast(be_u8()), len_utf8(3))),
        Some(Err(BinError::CastFail))
    );
    assert_eq!(sink.as_slice().len(), 0);
    let fields = (3usize, String::from("too long"));
    assert_eq!(write_if_fits(&mut sink, &fields, pair(try_cast(be_u8()), len_utf8(3))), None);
    assert_eq!(sink.as_slice().len(), 0);
}

#[test]
fn values_behind_a_failed_one_need_not_fit() {
    let mut sink = Sink::new();
    let values = vec![
        (1usize, String::from("abc")),
        (300usize, String::from("abc")),
        (2usize, String::from("too long")),
    ];
    assert_eq!(
        write_if_fits(&mut sink, &values, count(pair(try_cast(be_u8()), len_utf8(3)), 3)),
        Some(Err(BinError::CastFail))
    );
    assert_eq!(sink.as_slice().to_vec(), vec![1, 0x61, 0x62, 0x63]);
    let values = vec![(1usize, String::from("abc")), (2usize, String::from("too long"))];
    let mut sink = Sink::new();
    assert_eq!(
        write_if_fits(&mut sink, &values, count(pair(try_cast(be_u8()), len_utf8(3)), 2)),
        None
    );
    assert_eq!(sink.as_slice().len(), 0);
}
