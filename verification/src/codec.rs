//! What the library asks of the outside codec: whether a byte array is text,
//! and what the metadata that the codec keeps for a file and for each of its
//! row groups records. The metadata itself is carried along unchanged; only
//! the counts and the column types below are taken from it.
//!
//! Nothing in this file is proved: each function hands a question on to the
//! codec, and its contract says what the codec's source shows of the answer.

use crate::column::PhysicalType;
use parquet::basic::Type;
use parquet::data_type::ByteArray;
use parquet::file::metadata::{ParquetMetaData, RowGroupMetaData};
use std::sync::Arc;
use vstd::prelude::*;
use vstd::utf8::valid_utf8;

verus! {

/// The metadata of one row group, as the outside codec holds it.
#[verifier::external_type_specification]
#[verifier::external_body]
pub struct ExRowGroupMetaData(RowGroupMetaData);

/// The metadata of one file, as the outside codec holds it.
#[verifier::external_type_specification]
#[verifier::external_body]
pub struct ExParquetMetaData(ParquetMetaData);

/// The number of values that the metadata of a row group records for each of
/// its column chunks, in the order of the columns.
pub uninterp spec fn column_value_counts(metadata: RowGroupMetaData) -> Seq<i64>;

/// For each row group that the metadata of a file holds, in the order of the
/// row groups, the number of values that it records for each column chunk of
/// the row group.
pub uninterp spec fn row_group_value_counts(metadata: ParquetMetaData) -> Seq<Seq<i64>>;

/// The physical type of each leaf column of the schema that the metadata of a
/// file holds, in the order of the columns: the types of the writer slots of
/// a file that is written with that schema.
pub uninterp spec fn schema_types(metadata: ParquetMetaData) -> Seq<PhysicalType>;

/// [`ByteArray::as_utf8`], asked of a byte array that holds a copy of
/// `bytes`: whether the bytes can be read as text. The codec hands the bytes
/// to the standard library's UTF-8 check and fails where that fails; what is
/// claimed here is that the check accepts exactly the well-formed UTF-8
/// encodings.
#[verifier::external_body]
pub(crate) fn is_utf8(bytes: &Vec<u8>) -> (ok: bool)
    ensures
        ok == valid_utf8(bytes@),
{
    ByteArray::from(bytes.clone()).as_utf8().is_ok()
}

/// [`RowGroupMetaData::num_columns`]: the number of column chunks that the
/// row group's metadata holds.
#[verifier::external_body]
pub(crate) fn num_columns(metadata: &RowGroupMetaData) -> (n: usize)
    ensures
        n == column_value_counts(*metadata).len(),
{
    metadata.num_columns()
}

/// [`RowGroupMetaData::column`] and, of the chunk that it returns,
/// [`parquet::file::metadata::ColumnChunkMetaData::num_values`]: the number
/// of values recorded for the `i`th column chunk. The outside function
/// panics for an `i` that is not below the number of chunks.
#[verifier::external_body]
pub(crate) fn column_num_values(metadata: &RowGroupMetaData, i: usize) -> (n: i64)
    requires
        i < column_value_counts(*metadata).len(),
    ensures
        n == column_value_counts(*metadata)[i as int],
{
    metadata.column(i).num_values()
}

/// [`ParquetMetaData::num_row_groups`]: the number of row groups that the
/// file's metadata holds.
#[verifier::external_body]
pub(crate) fn num_row_groups(metadata: &ParquetMetaData) -> (n: usize)
    ensures
        n == row_group_value_counts(*metadata).len(),
{
    metadata.num_row_groups()
}

/// [`ParquetMetaData::row_group`]: a copy of the metadata of the `i`th row
/// group, which records for its column chunks the numbers of values that the
/// file's metadata holds for that row group. The outside function panics for
/// an `i` that is not below the number of row groups.
#[verifier::external_body]
pub(crate) fn row_group(metadata: &ParquetMetaData, i: usize) -> (group: Arc<RowGroupMetaData>)
    requires
        i < row_group_value_counts(*metadata).len(),
    ensures
        column_value_counts(*group) == row_group_value_counts(*metadata)[i as int],
{
    Arc::new(metadata.row_group(i).clone())
}

/// [`parquet::schema::types::SchemaDescriptor::num_columns`], of the schema
/// that [`ParquetMetaData::file_metadata`] holds: the number of leaf columns.
#[verifier::external_body]
pub(crate) fn num_schema_columns(metadata: &ParquetMetaData) -> (n: usize)
    ensures
        n == schema_types(*metadata).len(),
{
    metadata.file_metadata().schema_descr().num_columns()
}

/// [`parquet::schema::types::SchemaDescriptor::column`] and, of the leaf that
/// it returns, [`parquet::schema::types::ColumnDescriptor::physical_type`]:
/// the physical type of the `i`th leaf column of the file's schema, named as
/// the library names it. The first outside function panics for an `i` that is
/// not below the number of leaves; the second never does on a leaf.
#[verifier::external_body]
pub(crate) fn schema_column_type(metadata: &ParquetMetaData, i: usize) -> (physical_type:
    PhysicalType)
    requires
        i < schema_types(*metadata).len(),
    ensures
        physical_type == schema_types(*metadata)[i as int],
{
    match metadata.file_metadata().schema_descr().column(i).physical_type() {
        Type::BOOLEAN => PhysicalType::Boolean,
        Type::INT32 => PhysicalType::Int32,
        Type::INT64 => PhysicalType::Int64,
        Type::INT96 => PhysicalType::Int96,
        Type::FLOAT => PhysicalType::Float,
        Type::DOUBLE => PhysicalType::Double,
        Type::BYTE_ARRAY => PhysicalType::ByteArray,
        Type::FIXED_LEN_BYTE_ARRAY => PhysicalType::FixedLenByteArray,
    }
}

} // verus!
