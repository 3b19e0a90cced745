//! Redaction of sensitive strings inside columnar data.
//!
//! A file is held as row groups of typed columns. Search terms are replaced
//! inside the byte-array columns only; every other value, and the level
//! arrays that carry the nesting of the rows, stay as they were read. A file
//! that changed is replaced on disk under the protection of a backup copy,
//! following the states of [`transaction::FileTransaction`].

pub mod codec;
pub mod column;
pub mod decoder;
pub mod error;
pub mod laws;
pub mod parquet_file;
pub mod redact;
pub mod row_group;
pub mod search;
pub mod transaction;

pub use column::ParquetColumn;
pub use parquet_file::ParquetFile;
pub use row_group::RowGroup;
