//! One row group: its columns in the order of the schema, beside the metadata
//! that the file records for it.

use crate::column::{BatchModel, ColumnBatch, ColumnModel, ParquetColumn, PhysicalType};
use crate::error::Error;
use crate::codec::{column_num_values, column_value_counts, num_columns};
use crate::redact::{no_empty_term, term_bytes};
use parquet::file::metadata::{RowGroupMetaData, RowGroupMetaDataPtr};
use vstd::prelude::*;
use vstd::utf8::encode_utf8;

verus! {

/// One row group of a file.
pub struct RowGroup {
    metadata: RowGroupMetaDataPtr,
    columns: Vec<ParquetColumn>,
}

/// What a [`RowGroup`] holds.
pub ghost struct RowGroupModel {
    /// The metadata that the file records for the row group.
    pub metadata: RowGroupMetaData,
    /// The columns, in the order of the schema.
    pub columns: Seq<ColumnModel>,
}

/// What each of the columns holds, in their order.
pub open spec fn column_models(columns: Seq<ParquetColumn>) -> Seq<ColumnModel> {
    Seq::new(columns.len(), |i: int| columns[i]@)
}

/// What each of the batches holds, in their order.
pub open spec fn batch_models(batches: Seq<ColumnBatch<'_>>) -> Seq<BatchModel> {
    Seq::new(batches.len(), |i: int| batches[i]@)
}

/// Whether the columns are those that the metadata of the row group asks for:
/// as many as it has column chunks, each with a level of either kind for
/// every value, and with as many values as recorded for its chunk.
pub open spec fn columns_fit(counts: Seq<i64>, columns: Seq<ColumnModel>) -> bool {
    &&& columns.len() == counts.len()
    &&& forall|i: int|
        0 <= i < columns.len() ==> (#[trigger] columns[i]).wf() && columns[i].values.len()
            == counts[i]
}

/// Whether every recorded count is a number of values that a column can hold.
pub open spec fn counts_usable(counts: Seq<i64>) -> bool {
    forall|i: int| 0 <= i < counts.len() ==> 0 <= #[trigger] counts[i] <= usize::MAX
}

/// Whether the columns can go to the writer slots of the schema, one to each
/// in their order: there are as many, and each has the type of its slot.
pub open spec fn columns_fit_writers(columns: Seq<ColumnModel>, writer_types: Seq<PhysicalType>) -> bool {
    &&& columns.len() == writer_types.len()
    &&& forall|j: int|
        0 <= j < columns.len() ==> (#[trigger] columns[j]).values.physical_type()
            == writer_types[j]
}

/// What each column hands to its writer, in the order of the columns.
pub open spec fn column_batches(columns: Seq<ColumnModel>) -> Seq<BatchModel> {
    Seq::new(columns.len(), |j: int| columns[j].batch())
}

/// Each of the columns after redaction.
pub open spec fn redacted_columns(
    columns: Seq<ColumnModel>,
    terms: Seq<Seq<u8>>,
    replacement: Seq<u8>,
) -> Seq<ColumnModel> {
    Seq::new(columns.len(), |j: int| columns[j].redacted(terms, replacement))
}

impl RowGroupModel {
    /// The columns are those that the metadata of the row group asks for.
    pub open spec fn wf(self) -> bool {
        columns_fit(column_value_counts(self.metadata), self.columns)
    }

    /// Whether a column of the row group is dirty.
    pub open spec fn is_dirty(self) -> bool {
        exists|j: int| 0 <= j < self.columns.len() && (#[trigger] self.columns[j]).is_dirty
    }

    /// The row group after the redaction of each of its columns. The
    /// metadata stays as it is.
    pub open spec fn redacted(self, terms: Seq<Seq<u8>>, replacement: Seq<u8>) -> RowGroupModel {
        RowGroupModel {
            metadata: self.metadata,
            columns: redacted_columns(self.columns, terms, replacement),
        }
    }
}

impl View for RowGroup {
    type V = RowGroupModel;

    closed spec fn view(&self) -> RowGroupModel {
        RowGroupModel { metadata: *self.metadata, columns: column_models(self.columns@) }
    }
}

impl RowGroup {
    /// The number of values to ask of each column reader of the row group, in
    /// the order of the columns, as the metadata records them. A count that
    /// is below zero, or too large for this machine, fails the row group.
    pub fn value_counts(metadata: &RowGroupMetaData) -> (counts: Result<Vec<usize>, Error>)
        ensures
            match counts {
                Ok(c) => {
                    &&& counts_usable(column_value_counts(*metadata))
                    &&& c@.len() == column_value_counts(*metadata).len()
                    &&& forall|i: int|
                        0 <= i < c@.len() ==> c@[i] == column_value_counts(*metadata)[i]
                },
                Err(e) => e == Error::DecodeFailed && !counts_usable(
                    column_value_counts(*metadata),
                ),
            },
    {
        let n = num_columns(metadata);
        let mut counts: Vec<usize> = Vec::new();
        let mut i: usize = 0;
        while i < n
            invariant
                i <= n,
                n == column_value_counts(*metadata).len(),
                counts@.len() == i,
                forall|j: int|
                    0 <= j < i ==> 0 <= #[trigger] column_value_counts(*metadata)[j] <= usize::MAX,
                forall|j: int| 0 <= j < i ==> counts@[j] == column_value_counts(*metadata)[j],
            decreases n - i,
        {
            let count: i64 = column_num_values(metadata, i);
            if count < 0 || count as u64 > usize::MAX as u64 {
                return Err(Error::DecodeFailed);
            }
            counts.push(count as usize);
            i += 1;
        }
        Ok(counts)
    }

    /// Makes the row group of its columns, which have to be those that the
    /// metadata asks for, in its order. There is no row group of a part of
    /// the columns.
    pub fn new(metadata: RowGroupMetaDataPtr, columns: Vec<ParquetColumn>) -> (group: Result<
        RowGroup,
        Error,
    >)
        ensures
            match group {
                Ok(g) => {
                    &&& g@ == RowGroupModel {
                        metadata: *metadata,
                        columns: column_models(columns@),
                    }
                    &&& g@.wf()
                },
                Err(e) => e == Error::DecodeFailed && !columns_fit(
                    column_value_counts(*metadata),
                    column_models(columns@),
                ),
            },
    {
        if !columns_are_those_of(&metadata, &columns) {
            return Err(Error::DecodeFailed);
        }
        Ok(RowGroup { metadata, columns })
    }

    /// Whether the columns are those that the metadata of the row group asks
    /// for.
    pub fn is_well_formed(&self) -> (well_formed: bool)
        ensures
            well_formed == self@.wf(),
    {
        columns_are_those_of(&self.metadata, &self.columns)
    }

    /// The metadata that the file records for the row group.
    pub fn metadata(&self) -> (metadata: &RowGroupMetaDataPtr)
        ensures
            **metadata == self@.metadata,
    {
        &self.metadata
    }

    /// The columns, in the order of the schema.
    pub fn columns(&self) -> (columns: &Vec<ParquetColumn>)
        ensures
            column_models(columns@) == self@.columns,
    {
        &self.columns
    }

    /// Whether a column of the row group is dirty.
    pub fn is_dirty(&self) -> (dirty: bool)
        ensures
            dirty == self@.is_dirty(),
    {
        let mut j: usize = 0;
        while j < self.columns.len()
            invariant
                j <= self.columns@.len(),
                forall|k: int| 0 <= k < j ==> !(#[trigger] column_models(self.columns@)[k]).is_dirty,
            decreases self.columns.len() - j,
        {
            if self.columns[j].is_dirty() {
                assert(column_models(self.columns@)[j as int].is_dirty);
                return true;
            }
            j += 1;
        }
        false
    }

    /// Redacts every column of the row group.
    pub fn redact(&mut self, search_values: &Vec<String>, replace: &String)
        requires
            no_empty_term(search_values@),
        ensures
            final(self)@ == old(self)@.redacted(term_bytes(search_values@), encode_utf8(replace@)),
            final(self)@.wf() == old(self)@.wf(),
    {
        let ghost terms = term_bytes(search_values@);
        let ghost replacement = encode_utf8(replace@);
        let ghost before = column_models(self.columns@);
        let mut j: usize = 0;
        while j < self.columns.len()
            invariant
                j <= self.columns@.len(),
                self.columns@.len() == before.len(),
                self.metadata == old(self).metadata,
                no_empty_term(search_values@),
                terms == term_bytes(search_values@),
                replacement == encode_utf8(replace@),
                forall|k: int|
                    0 <= k < j ==> (#[trigger] self.columns@[k])@ == before[k].redacted(
                        terms,
                        replacement,
                    ),
                forall|k: int| j <= k < self.columns@.len() ==> (#[trigger] self.columns@[k])@ == before[k],
            decreases self.columns.len() - j,
        {
            self.columns[j].redact(search_values, replace);
            j += 1;
        }
        assert(column_models(self.columns@) =~= redacted_columns(before, terms, replacement));
        proof {
            lemma_redaction_keeps_row_groups_well_formed(old(self)@, terms, replacement);
        }
    }

    /// What each column hands to its writer, in the order of the columns,
    /// for the writer slots of a schema whose leaves have the physical types
    /// `writer_types`. Nothing is handed out unless every column fits its
    /// slot.
    pub fn write<'a>(&'a self, writer_types: &Vec<PhysicalType>) -> (batches: Result<
        Vec<ColumnBatch<'a>>,
        Error,
    >)
        ensures
            match batches {
                Ok(b) => columns_fit_writers(self@.columns, writer_types@) && batch_models(b@)
                    == column_batches(self@.columns),
                Err(e) => e == Error::WriteFailed && !columns_fit_writers(
                    self@.columns,
                    writer_types@,
                ),
            },
    {
        if self.columns.len() != writer_types.len() {
            return Err(Error::WriteFailed);
        }
        let ghost columns = column_models(self.columns@);
        let mut batches: Vec<ColumnBatch<'a>> = Vec::new();
        let mut j: usize = 0;
        while j < self.columns.len()
            invariant
                j <= self.columns@.len(),
                self.columns@.len() == writer_types@.len(),
                columns == column_models(self.columns@),
                batches@.len() == j,
                forall|k: int|
                    0 <= k < j ==> (#[trigger] columns[k]).values.physical_type()
                        == writer_types@[k],
                forall|k: int| 0 <= k < j ==> (#[trigger] batches@[k])@ == columns[k].batch(),
            decreases self.columns.len() - j,
        {
            match self.columns[j].write(writer_types[j]) {
                Ok(batch) => {
                    batches.push(batch);
                },
                Err(e) => {
                    assert(columns[j as int].values.physical_type() != writer_types@[j as int]);
                    return Err(e);
                },
            }
            j += 1;
        }
        assert(batch_models(batches@) =~= column_batches(columns));
        Ok(batches)
    }
}

/// Redaction keeps a row group as its metadata asks for it, and makes none
/// so that was not: the columns are as many, with as many values and levels
/// as before.
pub proof fn lemma_redaction_keeps_row_groups_well_formed(
    group: RowGroupModel,
    terms: Seq<Seq<u8>>,
    replacement: Seq<u8>,
)
    ensures
        group.redacted(terms, replacement).wf() == group.wf(),
{
    let counts = column_value_counts(group.metadata);
    let before = group.columns;
    let after = group.redacted(terms, replacement).columns;
    if group.wf() {
        assert forall|k: int| 0 <= k < after.len() implies (#[trigger] after[k]).wf()
            && after[k].values.len() == counts[k] by {
            assert(before[k].wf());
        }
    }
    if group.redacted(terms, replacement).wf() {
        assert forall|k: int| 0 <= k < before.len() implies (#[trigger] before[k]).wf()
            && before[k].values.len() == counts[k] by {
            assert(after[k].wf());
        }
    }
}

/// Whether the columns are those that the metadata of a row group asks for.
pub(crate) fn columns_are_those_of(metadata: &RowGroupMetaData, columns: &Vec<ParquetColumn>) -> (fit:
    bool)
    ensures
        fit == columns_fit(column_value_counts(*metadata), column_models(columns@)),
{
    let n = num_columns(metadata);
    if columns.len() != n {
        return false;
    }
    let mut i: usize = 0;
    while i < n
        invariant
            i <= n,
            n == column_value_counts(*metadata).len(),
            columns@.len() == n,
            forall|j: int|
                0 <= j < i ==> (#[trigger] column_models(columns@)[j]).wf() && column_models(
                    columns@,
                )[j].values.len() == column_value_counts(*metadata)[j],
        decreases n - i,
    {
        let count: i64 = column_num_values(metadata, i);
        let column = &columns[i];
        assert(column_models(columns@)[i as int] == column@);
        if !column.is_well_formed() || count < 0 || count as u64 != column.len() as u64 {
            return false;
        }
        i += 1;
    }
    true
}

/// Whether the columns can go to the writer slots with the given types.
pub(crate) fn columns_have_types(columns: &Vec<ParquetColumn>, writer_types: &Vec<PhysicalType>) -> (fit:
    bool)
    ensures
        fit == columns_fit_writers(column_models(columns@), writer_types@),
{
    if columns.len() != writer_types.len() {
        return false;
    }
    let mut j: usize = 0;
    while j < columns.len()
        invariant
            j <= columns@.len(),
            columns@.len() == writer_types@.len(),
            forall|k: int|
                0 <= k < j ==> (#[trigger] column_models(columns@)[k]).values.physical_type()
                    == writer_types@[k],
        decreases columns.len() - j,
    {
        assert(column_models(columns@)[j as int] == columns@[j as int]@);
        if columns[j].physical_type() != writer_types[j] {
            return false;
        }
        j += 1;
    }
    true
}

} // verus!
