use carpet::column::{ColumnValues, Int96, ParquetColumn, PhysicalType};
use carpet::decoder::ColumnDecoder;
use carpet::error::Error;

#[test]
fn read_fills_values_and_levels_up_to_the_recorded_count() {
    let column = ParquetColumn::read(
        PhysicalType::Int32,
        4,
        ColumnValues::Int32(vec![5, 6]),
        vec![1, 0, 1],
        Vec::new(),
    )
    .unwrap();
    assert_eq!(column.values(), &ColumnValues::Int32(vec![5, 6, 0, 0]));
    assert_eq!(column.def_levels(), &vec![1i16, 0, 1, 0]);
    assert_eq!(column.rep_levels(), &vec![0i16, 0, 0, 0]);
    assert_eq!(column.len(), 4);
    assert!(column.is_well_formed());
    assert!(!column.is_dirty());
    assert_eq!(column.physical_type(), PhysicalType::Int32);
}

#[test]
fn read_fills_each_type_with_its_zero() {
    let cases = vec![
        (ColumnValues::Bool(vec![true]), ColumnValues::Bool(vec![true, false])),
        (ColumnValues::Int64(vec![9]), ColumnValues::Int64(vec![9, 0])),
        (
            ColumnValues::Int96(vec![Int96 { elem0: 1, elem1: 2, elem2: 3 }]),
            ColumnValues::Int96(vec![
                Int96 { elem0: 1, elem1: 2, elem2: 3 },
                Int96 { elem0: 0, elem1: 0, elem2: 0 },
            ]),
        ),
        (ColumnValues::Float(vec![7]), ColumnValues::Float(vec![7, 0])),
        (ColumnValues::Double(vec![7]), ColumnValues::Double(vec![7, 0])),
        (
            ColumnValues::ByteArray(vec![b"a".to_vec()]),
            ColumnValues::ByteArray(vec![b"a".to_vec(), Vec::new()]),
        ),
    ];
    for (given, expected) in cases {
        let kind = given.physical_type();
        let column = ParquetColumn::read(kind, 2, given, Vec::new(), Vec::new()).unwrap();
        assert_eq!(column.values(), &expected);
        assert_eq!(column.physical_type(), kind);
    }
}

#[test]
fn read_of_full_buffers_changes_nothing() {
    let column = ParquetColumn::read(
        PhysicalType::Boolean,
        2,
        ColumnValues::Bool(vec![true, true]),
        vec![1, 1],
        vec![0, 1],
    )
    .unwrap();
    assert_eq!(column.values(), &ColumnValues::Bool(vec![true, true]));
    assert_eq!(column.def_levels(), &vec![1i16, 1]);
    assert_eq!(column.rep_levels(), &vec![0i16, 1]);
}

#[test]
fn read_of_nothing_gives_an_empty_column() {
    let column =
        ParquetColumn::read(PhysicalType::Double, 0, ColumnValues::Double(Vec::new()), Vec::new(), Vec::new())
            .unwrap();
    assert_eq!(column.len(), 0);
    assert!(column.is_well_formed());
}

#[test]
fn read_refuses_a_type_without_a_typed_column() {
    let result = ParquetColumn::read(
        PhysicalType::FixedLenByteArray,
        1,
        ColumnValues::ByteArray(vec![b"abcd".to_vec()]),
        Vec::new(),
        Vec::new(),
    );
    assert_eq!(result.err(), Some(Error::UnsupportedType));
}

#[test]
fn read_refuses_values_of_another_type() {
    let result =
        ParquetColumn::read(PhysicalType::Int64, 1, ColumnValues::Int32(vec![1]), Vec::new(), Vec::new());
    assert_eq!(result.err(), Some(Error::DecodeFailed));
}

#[test]
fn read_refuses_more_than_was_recorded() {
    let result =
        ParquetColumn::read(PhysicalType::Int32, 1, ColumnValues::Int32(vec![1, 2]), Vec::new(), Vec::new());
    assert_eq!(result.err(), Some(Error::DecodeFailed));
    let result =
        ParquetColumn::read(PhysicalType::Int32, 1, ColumnValues::Int32(vec![1]), vec![0, 0], Vec::new());
    assert_eq!(result.err(), Some(Error::DecodeFailed));
    let result =
        ParquetColumn::read(PhysicalType::Int32, 1, ColumnValues::Int32(vec![1]), Vec::new(), vec![0, 0]);
    assert_eq!(result.err(), Some(Error::DecodeFailed));
}

#[test]
fn write_hands_out_the_whole_column() {
    let column = ParquetColumn::read(
        PhysicalType::Int32,
        3,
        ColumnValues::Int32(vec![5, 6]),
        vec![1, 0, 1],
        vec![0, 0, 0],
    )
    .unwrap();
    let batch = column.write(PhysicalType::Int32).ok().unwrap();
    assert_eq!(batch.values, &ColumnValues::Int32(vec![5, 6, 0]));
    assert_eq!(batch.def_levels, &vec![1i16, 0, 1]);
    assert_eq!(batch.rep_levels, &vec![0i16, 0, 0]);
}

#[test]
fn write_fails_for_a_writer_of_another_type() {
    let column =
        ParquetColumn::read(PhysicalType::Int32, 1, ColumnValues::Int32(vec![5]), Vec::new(), Vec::new())
            .unwrap();
    assert_eq!(column.write(PhysicalType::Int64).err(), Some(Error::WriteFailed));
    assert_eq!(column.write(PhysicalType::FixedLenByteArray).err(), Some(Error::WriteFailed));
}

#[test]
fn every_type_but_one_is_supported() {
    let supported = [
        PhysicalType::Boolean,
        PhysicalType::Int32,
        PhysicalType::Int64,
        PhysicalType::Int96,
        PhysicalType::Float,
        PhysicalType::Double,
        PhysicalType::ByteArray,
    ];
    for kind in supported {
        assert!(kind.is_supported());
        let empty = ColumnValues::empty(kind).unwrap();
        assert_eq!(empty.physical_type(), kind);
        assert_eq!(empty.len(), 0);
    }
    assert!(!PhysicalType::FixedLenByteArray.is_supported());
    assert_eq!(ColumnValues::empty(PhysicalType::FixedLenByteArray), None);
}

#[test]
fn append_takes_values_of_the_same_type_only() {
    let mut values = ColumnValues::Int32(vec![1]);
    assert!(values.append(ColumnValues::Int32(vec![2, 3])));
    assert_eq!(values, ColumnValues::Int32(vec![1, 2, 3]));
    assert!(!values.append(ColumnValues::Int64(vec![4])));
    assert_eq!(values, ColumnValues::Int32(vec![1, 2, 3]));
    let mut rows = ColumnValues::ByteArray(vec![b"a".to_vec()]);
    assert!(rows.append(ColumnValues::ByteArray(vec![b"b".to_vec()])));
    assert_eq!(rows, ColumnValues::ByteArray(vec![b"a".to_vec(), b"b".to_vec()]));
}

#[test]
fn a_decoder_refuses_a_type_without_a_typed_column() {
    assert_eq!(
        ColumnDecoder::new(PhysicalType::FixedLenByteArray, 3).err(),
        Some(Error::UnsupportedType)
    );
}

#[test]
fn a_decoder_asks_for_the_recorded_count_until_a_batch_falls_short() {
    let mut decoder = ColumnDecoder::new(PhysicalType::Int32, 3).ok().unwrap();
    assert_eq!(decoder.next_request(), Some(3));
    assert_eq!(decoder.accept(ColumnValues::Int32(vec![1, 2, 3]), Vec::new(), Vec::new()), Ok(()));
    assert_eq!(decoder.next_request(), Some(3));
    assert_eq!(decoder.accept(ColumnValues::Int32(Vec::new()), Vec::new(), Vec::new()), Ok(()));
    assert_eq!(decoder.next_request(), None);
    let column = decoder.finish().unwrap();
    assert_eq!(column.values(), &ColumnValues::Int32(vec![1, 2, 3]));
    assert_eq!(column.def_levels(), &vec![0i16, 0, 0]);
    assert_eq!(column.rep_levels(), &vec![0i16, 0, 0]);
}

#[test]
fn a_decoder_ends_with_the_first_batch_that_falls_short() {
    let mut decoder = ColumnDecoder::new(PhysicalType::ByteArray, 3).ok().unwrap();
    let batch = ColumnValues::ByteArray(vec![b"a".to_vec(), b"b".to_vec()]);
    assert_eq!(decoder.accept(batch, vec![1, 0, 1], Vec::new()), Ok(()));
    assert_eq!(decoder.next_request(), None);
    let column = decoder.finish().unwrap();
    assert_eq!(
        column.values(),
        &ColumnValues::ByteArray(vec![b"a".to_vec(), b"b".to_vec(), Vec::new()])
    );
    assert_eq!(column.def_levels(), &vec![1i16, 0, 1]);
    assert!(column.is_well_formed());
}

#[test]
fn a_decoder_of_no_values_asks_for_nothing() {
    let decoder = ColumnDecoder::new(PhysicalType::Double, 0).ok().unwrap();
    assert_eq!(decoder.next_request(), None);
    let column = decoder.finish().unwrap();
    assert_eq!(column.len(), 0);
    assert_eq!(column.physical_type(), PhysicalType::Double);
}

#[test]
fn a_decoder_refuses_more_than_was_recorded() {
    let mut decoder = ColumnDecoder::new(PhysicalType::Int32, 2).ok().unwrap();
    assert_eq!(
        decoder.accept(ColumnValues::Int32(vec![1, 2, 3]), Vec::new(), Vec::new()),
        Err(Error::DecodeFailed)
    );
    assert_eq!(decoder.next_request(), Some(2));
    assert_eq!(decoder.accept(ColumnValues::Int32(vec![1, 2]), Vec::new(), Vec::new()), Ok(()));
    assert_eq!(
        decoder.accept(ColumnValues::Int32(vec![3, 4]), Vec::new(), Vec::new()),
        Err(Error::DecodeFailed)
    );
    assert_eq!(
        decoder.accept(ColumnValues::Int32(Vec::new()), vec![0, 0, 0], Vec::new()),
        Err(Error::DecodeFailed)
    );
    assert_eq!(
        decoder.accept(ColumnValues::Int32(Vec::new()), Vec::new(), vec![0, 0, 0]),
        Err(Error::DecodeFailed)
    );
    assert_eq!(decoder.accept(ColumnValues::Int32(Vec::new()), Vec::new(), Vec::new()), Ok(()));
    assert_eq!(decoder.finish().unwrap().values(), &ColumnValues::Int32(vec![1, 2]));
}

#[test]
fn a_decoder_refuses_values_of_another_type() {
    let mut decoder = ColumnDecoder::new(PhysicalType::Int32, 2).ok().unwrap();
    assert_eq!(
        decoder.accept(ColumnValues::Int64(vec![1]), Vec::new(), Vec::new()),
        Err(Error::DecodeFailed)
    );
}

#[test]
fn a_decoder_refuses_a_batch_after_the_end() {
    let mut decoder = ColumnDecoder::new(PhysicalType::Int32, 2).ok().unwrap();
    assert_eq!(decoder.accept(ColumnValues::Int32(vec![1]), Vec::new(), Vec::new()), Ok(()));
    assert_eq!(
        decoder.accept(ColumnValues::Int32(Vec::new()), Vec::new(), Vec::new()),
        Err(Error::DecodeFailed)
    );
    assert_eq!(decoder.finish().unwrap().values(), &ColumnValues::Int32(vec![1, 0]));
}

#[test]
fn a_decoder_that_has_not_seen_the_end_gives_no_column() {
    let mut decoder = ColumnDecoder::new(PhysicalType::Int32, 2).ok().unwrap();
    assert_eq!(decoder.accept(ColumnValues::Int32(vec![1, 2]), Vec::new(), Vec::new()), Ok(()));
    assert_eq!(decoder.finish().err(), Some(Error::DecodeFailed));
    let decoder = ColumnDecoder::new(PhysicalType::Int32, 2).ok().unwrap();
    assert_eq!(decoder.finish().err(), Some(Error::DecodeFailed));
}
