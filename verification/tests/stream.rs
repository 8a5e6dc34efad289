use bin_io::{BinError, Sink, Source};

#[test]
fn source_starts_at_its_first_byte() {
    let source = Source::new(vec![1, 2, 3]);
    assert_eq!(source.pos(), 0);
    assert_eq!(source.remaining_len(), 3);
}

#[test]
fn source_reads_bytes_in_order() {
    let mut source = Source::new(vec![7, 8]);
    assert_eq!(source.read_u8(), Ok(7));
    assert_eq!(source.pos(), 1);
    assert_eq!(source.read_u8(), Ok(8));
    assert_eq!(source.pos(), 2);
    assert_eq!(source.remaining_len(), 0);
}

#[test]
fn source_reports_its_end() {
    let mut source = Source::new(Vec::new());
    assert_eq!(source.read_u8(), Err(BinError::UnexpectedEof));
    assert_eq!(source.pos(), 0);
}

#[test]
fn source_takes_a_run_of_bytes() {
    let mut source = Source::new(vec![1, 2, 3, 4, 5]);
    assert_eq!(source.take(2).unwrap().to_vec(), vec![1, 2]);
    assert_eq!(source.pos(), 2);
    assert_eq!(source.take(3).unwrap().to_vec(), vec![3, 4, 5]);
    assert_eq!(source.pos(), 5);
}

#[test]
fn source_takes_nothing_at_all() {
    let mut source = Source::new(vec![1]);
    assert_eq!(source.take(0).unwrap().len(), 0);
    assert_eq!(source.pos(), 0);
}

#[test]
fn short_source_is_used_up_by_a_failed_take() {
    let mut source = Source::new(vec![1, 2, 3]);
    assert_eq!(source.take(4), Err(BinError::UnexpectedEof));
    assert_eq!(source.pos(), 3);
    assert_eq!(source.remaining_len(), 0);
}

#[test]
fn sink_collects_what_is_written() {
    let mut sink = Sink::new();
    assert_eq!(sink.as_slice().len(), 0);
    sink.write_u8(9);
    sink.write_all(&[8, 7]);
    sink.write_all(&[]);
    assert_eq!(sink.as_slice().to_vec(), vec![9, 8, 7]);
    assert_eq!(sink.into_inner(), vec![9, 8, 7]);
}

#[test]
fn errors_describe_themselves() {
    assert_eq!(BinError::Utf8Conversion.description(), "Failed string conversion");
    assert_eq!(BinError::Utf16Conversion.description(), "Failed string conversion");
    assert_eq!(BinError::CheckFail.description(), "Check failed");
    assert_eq!(BinError::CastFail.description(), "Cast failed");
    assert_eq!(BinError::UnexpectedEof.description(), "Unexpected end of input");
}
