//! A whole file: its row groups in their order, beside the metadata that was
//! read from its footer.

use crate::column::{BatchModel, ColumnBatch, PhysicalType};
use crate::error::Error;
use crate::codec::{
    column_value_counts, num_row_groups, num_schema_columns, row_group, row_group_value_counts,
    schema_column_type, schema_types,
};
use crate::redact::{no_empty_term, term_bytes};
use crate::row_group::{
    batch_models, column_batches, columns_are_those_of, columns_fit, columns_fit_writers,
    columns_have_types, RowGroup, RowGroupModel,
};
use parquet::file::metadata::{ParquetMetaData, RowGroupMetaDataPtr};
use std::sync::Arc;
use vstd::prelude::*;
use vstd::utf8::encode_utf8;

verus! {

/// One file, read in full.
pub struct ParquetFile {
    row_groups: Vec<RowGroup>,
    metadata: Arc<ParquetMetaData>,
}

/// What a [`ParquetFile`] holds.
pub ghost struct FileModel {
    /// The metadata that was read from the file.
    pub metadata: ParquetMetaData,
    /// The row groups, in the order of the file.
    pub row_groups: Seq<RowGroupModel>,
}

/// What each of the row groups holds, in their order.
pub open spec fn row_group_models(groups: Seq<RowGroup>) -> Seq<RowGroupModel> {
    Seq::new(groups.len(), |i: int| groups[i]@)
}

/// The numbers of values that each of the row groups' metadata records for
/// its column chunks, in the order of the row groups.
pub open spec fn recorded_counts(groups: Seq<RowGroupMetaDataPtr>) -> Seq<Seq<i64>> {
    Seq::new(groups.len(), |i: int| column_value_counts(*groups[i]))
}

/// What each batch of each row group holds.
pub open spec fn file_batch_models(batches: Seq<Vec<ColumnBatch<'_>>>) -> Seq<Seq<BatchModel>> {
    Seq::new(batches.len(), |i: int| batch_models(batches[i]@))
}

impl FileModel {
    /// The row groups are those of the file's metadata, and their columns
    /// those of its schema, in number and in order: there are as many row
    /// groups as the metadata holds; each has the columns that its own
    /// metadata asks for, which are those that the file's metadata records
    /// for the row group in that place; and each of its columns has the
    /// physical type of the schema's leaf in that place.
    pub open spec fn wf(self) -> bool {
        &&& self.row_groups.len() == row_group_value_counts(self.metadata).len()
        &&& forall|i: int|
            0 <= i < self.row_groups.len() ==> {
                &&& (#[trigger] self.row_groups[i]).wf()
                &&& columns_fit(
                    row_group_value_counts(self.metadata)[i],
                    self.row_groups[i].columns,
                )
                &&& columns_fit_writers(self.row_groups[i].columns, schema_types(self.metadata))
            }
    }

    /// Whether a column of the file is dirty, and the file has to be
    /// rewritten.
    pub open spec fn is_dirty(self) -> bool {
        exists|i: int| 0 <= i < self.row_groups.len() && (#[trigger] self.row_groups[i]).is_dirty()
    }

    /// The file after the redaction of each of its row groups. The metadata
    /// stays as it is.
    pub open spec fn redacted(self, terms: Seq<Seq<u8>>, replacement: Seq<u8>) -> FileModel {
        FileModel {
            metadata: self.metadata,
            row_groups: Seq::new(
                self.row_groups.len(),
                |i: int| self.row_groups[i].redacted(terms, replacement),
            ),
        }
    }

    /// Whether every row group can go to the writer slots of the schema.
    pub open spec fn fits_writers(self, writer_types: Seq<PhysicalType>) -> bool {
        forall|i: int|
            0 <= i < self.row_groups.len() ==> columns_fit_writers(
                (#[trigger] self.row_groups[i]).columns,
                writer_types,
            )
    }

    /// What is handed to the writers: for every row group in its order, and
    /// for every column of it in its order, the column's batch.
    pub open spec fn batches(self) -> Seq<Seq<BatchModel>> {
        Seq::new(self.row_groups.len(), |i: int| column_batches(self.row_groups[i].columns))
    }
}

impl View for ParquetFile {
    type V = FileModel;

    closed spec fn view(&self) -> FileModel {
        FileModel { metadata: *self.metadata, row_groups: row_group_models(self.row_groups@) }
    }
}

impl ParquetFile {
    /// The metadata of each row group that the file's metadata holds, in the
    /// order in which the row groups are to be read.
    pub fn row_groups_to_read(metadata: &ParquetMetaData) -> (groups: Vec<RowGroupMetaDataPtr>)
        ensures
            recorded_counts(groups@) == row_group_value_counts(*metadata),
    {
        let n = num_row_groups(metadata);
        let mut groups: Vec<RowGroupMetaDataPtr> = Vec::new();
        let mut i: usize = 0;
        while i < n
            invariant
                i <= n,
                n == row_group_value_counts(*metadata).len(),
                groups@.len() == i,
                forall|k: int|
                    0 <= k < i ==> column_value_counts(*(#[trigger] groups@[k]))
                        == row_group_value_counts(*metadata)[k],
            decreases n - i,
        {
            groups.push(row_group(metadata, i));
            i += 1;
        }
        assert(recorded_counts(groups@) =~= row_group_value_counts(*metadata));
        groups
    }

    /// Makes the file of its row groups, which have to be those of the
    /// metadata, and their columns those of its schema, in number and in
    /// order.
    pub fn read(metadata: Arc<ParquetMetaData>, row_groups: Vec<RowGroup>) -> (file: Result<
        ParquetFile,
        Error,
    >)
        ensures
            match file {
                Ok(f) => f@ == FileModel {
                    metadata: *metadata,
                    row_groups: row_group_models(row_groups@),
                } && f@.wf(),
                Err(e) => e == Error::DecodeFailed && !(FileModel {
                    metadata: *metadata,
                    row_groups: row_group_models(row_groups@),
                }).wf(),
            },
    {
        let n = num_row_groups(&metadata);
        if row_groups.len() != n {
            return Err(Error::DecodeFailed);
        }
        let writer_types = leaf_types(&metadata);
        let mut i: usize = 0;
        while i < n
            invariant
                i <= n,
                n == row_groups@.len(),
                n == row_group_value_counts(*metadata).len(),
                writer_types@ == schema_types(*metadata),
                forall|k: int|
                    0 <= k < i ==> {
                        &&& (#[trigger] row_group_models(row_groups@)[k]).wf()
                        &&& columns_fit(
                            row_group_value_counts(*metadata)[k],
                            row_group_models(row_groups@)[k].columns,
                        )
                        &&& columns_fit_writers(
                            row_group_models(row_groups@)[k].columns,
                            schema_types(*metadata),
                        )
                    },
            decreases n - i,
        {
            let group = &row_groups[i];
            assert(row_group_models(row_groups@)[i as int] == group@);
            let recorded = row_group(&metadata, i);
            if !group.is_well_formed() || !columns_are_those_of(&recorded, group.columns())
                || !columns_have_types(group.columns(), &writer_types) {
                return Err(Error::DecodeFailed);
            }
            i += 1;
        }
        Ok(ParquetFile { row_groups, metadata })
    }

    /// The metadata that was read from the file.
    pub fn metadata(&self) -> (metadata: &Arc<ParquetMetaData>)
        ensures
            **metadata == self@.metadata,
    {
        &self.metadata
    }

    /// The row groups, in the order of the file.
    pub fn row_groups(&self) -> (groups: &Vec<RowGroup>)
        ensures
            row_group_models(groups@) == self@.row_groups,
    {
        &self.row_groups
    }

    /// Whether a column of the file is dirty, and the file has to be
    /// rewritten.
    pub fn is_dirty(&self) -> (dirty: bool)
        ensures
            dirty == self@.is_dirty(),
    {
        let mut i: usize = 0;
        while i < self.row_groups.len()
            invariant
                i <= self.row_groups@.len(),
                forall|k: int|
                    0 <= k < i ==> !(#[trigger] row_group_models(self.row_groups@)[k]).is_dirty(),
            decreases self.row_groups.len() - i,
        {
            if self.row_groups[i].is_dirty() {
                assert(row_group_models(self.row_groups@)[i as int] == self.row_groups@[i as int]@);
                assert(self@.row_groups[i as int].is_dirty());
                return true;
            }
            i += 1;
        }
        false
    }

    /// Redacts every column of every row group, and says whether the file
    /// has to be rewritten: whether a column of it is dirty.
    pub fn redact(&mut self, search_values: &Vec<String>, replace: &String) -> (dirty: bool)
        requires
            no_empty_term(search_values@),
        ensures
            final(self)@ == old(self)@.redacted(term_bytes(search_values@), encode_utf8(replace@)),
            dirty == final(self)@.is_dirty(),
            old(self)@.wf() ==> final(self)@.wf(),
    {
        let ghost terms = term_bytes(search_values@);
        let ghost replacement = encode_utf8(replace@);
        let ghost before = row_group_models(self.row_groups@);
        let mut i: usize = 0;
        while i < self.row_groups.len()
            invariant
                i <= self.row_groups@.len(),
                self.row_groups@.len() == before.len(),
                self.metadata == old(self).metadata,
                no_empty_term(search_values@),
                terms == term_bytes(search_values@),
                replacement == encode_utf8(replace@),
                forall|k: int|
                    0 <= k < i ==> (#[trigger] self.row_groups@[k])@ == before[k].redacted(
                        terms,
                        replacement,
                    ),
                forall|k: int|
                    i <= k < self.row_groups@.len() ==> (#[trigger] self.row_groups@[k])@
                        == before[k],
            decreases self.row_groups.len() - i,
        {
            self.row_groups[i].redact(search_values, replace);
            i += 1;
        }
        assert(self@.row_groups =~= old(self)@.redacted(terms, replacement).row_groups);
        proof {
            if old(self)@.wf() {
                lemma_redaction_keeps_files_well_formed(old(self)@, terms, replacement);
            }
        }
        self.is_dirty()
    }

    /// The physical types of the writer slots of a file that is written with
    /// the schema of this one, in the order of the columns.
    pub fn writer_types(&self) -> (types: Vec<PhysicalType>)
        ensures
            types@ == schema_types(self@.metadata),
    {
        leaf_types(&self.metadata)
    }

    /// What is handed to the writers to write the whole file anew, with the
    /// schema that it was read with: for every row group in its order, and
    /// for every column of it in its order, whether dirty or not, the
    /// column's batch. Nothing is handed out unless every column of every row
    /// group fits its writer slot, which has the type of the schema's leaf in
    /// that place.
    pub fn write_to<'a>(&'a self) -> (batches: Result<Vec<Vec<ColumnBatch<'a>>>, Error>)
        ensures
            match batches {
                Ok(b) => self@.fits_writers(schema_types(self@.metadata)) && file_batch_models(b@)
                    == self@.batches(),
                Err(e) => e == Error::WriteFailed && !self@.fits_writers(
                    schema_types(self@.metadata),
                ),
            },
            self@.wf() ==> batches is Ok,
    {
        let writer_types = self.writer_types();
        let ghost groups = row_group_models(self.row_groups@);
        let mut batches: Vec<Vec<ColumnBatch<'a>>> = Vec::new();
        let mut i: usize = 0;
        while i < self.row_groups.len()
            invariant
                i <= self.row_groups@.len(),
                groups == row_group_models(self.row_groups@),
                writer_types@ == schema_types(self@.metadata),
                batches@.len() == i,
                forall|k: int|
                    0 <= k < i ==> columns_fit_writers((#[trigger] groups[k]).columns, writer_types@),
                forall|k: int|
                    0 <= k < i ==> batch_models((#[trigger] batches@[k])@) == column_batches(
                        groups[k].columns,
                    ),
            decreases self.row_groups.len() - i,
        {
            match self.row_groups[i].write(&writer_types) {
                Ok(group_batches) => {
                    batches.push(group_batches);
                },
                Err(e) => {
                    assert(groups[i as int] == self.row_groups@[i as int]@);
                    assert(!columns_fit_writers(self@.row_groups[i as int].columns, writer_types@));
                    return Err(e);
                },
            }
            i += 1;
        }
        assert(file_batch_models(batches@) =~= self@.batches());
        Ok(batches)
    }
}

/// The physical type of each leaf column of the schema that the metadata
/// holds, in the order of the columns.
fn leaf_types(metadata: &ParquetMetaData) -> (types: Vec<PhysicalType>)
    ensures
        types@ == schema_types(*metadata),
{
    let n = num_schema_columns(metadata);
    let mut types: Vec<PhysicalType> = Vec::new();
    let mut j: usize = 0;
    while j < n
        invariant
            j <= n,
            n == schema_types(*metadata).len(),
            types@.len() == j,
            forall|k: int| 0 <= k < j ==> types@[k] == schema_types(*metadata)[k],
        decreases n - j,
    {
        types.push(schema_column_type(metadata, j));
        j += 1;
    }
    assert(types@ =~= schema_types(*metadata));
    types
}

/// Redaction keeps a file as its metadata and its schema ask for it: the
/// columns are as many, of the same types and with as many values and levels
/// as before.
pub proof fn lemma_redaction_keeps_files_well_formed(
    file: FileModel,
    terms: Seq<Seq<u8>>,
    replacement: Seq<u8>,
)
    requires
        file.wf(),
    ensures
        file.redacted(terms, replacement).wf(),
{
    let after = file.redacted(terms, replacement);
    assert forall|i: int| 0 <= i < after.row_groups.len() implies {
        &&& (#[trigger] after.row_groups[i]).wf()
        &&& columns_fit(row_group_value_counts(after.metadata)[i], after.row_groups[i].columns)
        &&& columns_fit_writers(after.row_groups[i].columns, schema_types(after.metadata))
    } by {
        let before = file.row_groups[i];
        assert(before.wf());
        assert forall|j: int| 0 <= j < before.columns.len() implies {
            &&& (#[trigger] after.row_groups[i].columns[j]).wf() == before.columns[j].wf()
            &&& after.row_groups[i].columns[j].values.len() == before.columns[j].values.len()
            &&& after.row_groups[i].columns[j].values.physical_type()
                == before.columns[j].values.physical_type()
        } by {}
    }
}

} // verus!
