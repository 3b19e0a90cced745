//! What holds of redaction and of the replacement of a file on disk, for
//! every column, every file and every sequence of reports.

use crate::column::{redacted_rows, some_row_matches, ColumnData, ColumnModel};
use crate::error::Error;
use crate::parquet_file::FileModel;
use crate::redact::{
    holds_a_term, lemma_nothing_found_nothing_changed, lemma_value_matches_iff_holds_a_term,
    redacted_value, value_matches,
};
use crate::row_group::{redacted_columns, RowGroupModel};
use crate::transaction::{Action, Event, Outcome, RunModel, State};
use vstd::prelude::*;

verus! {

/// Whether a term stands in a value of the column that redaction looks at: a
/// byte-array value that is UTF-8 text.
pub open spec fn column_holds_a_term(column: ColumnModel, terms: Seq<Seq<u8>>) -> bool {
    match column.values {
        ColumnData::ByteArray(rows) => exists|i: int|
            0 <= i < rows.len() && holds_a_term(#[trigger] rows[i], terms),
        _ => false,
    }
}

/// Whether a term stands in a column of the row group.
pub open spec fn row_group_holds_a_term(group: RowGroupModel, terms: Seq<Seq<u8>>) -> bool {
    exists|j: int|
        0 <= j < group.columns.len() && column_holds_a_term(#[trigger] group.columns[j], terms)
}

/// Whether a term stands in a column of the file.
pub open spec fn file_holds_a_term(file: FileModel, terms: Seq<Seq<u8>>) -> bool {
    exists|i: int|
        0 <= i < file.row_groups.len() && row_group_holds_a_term(
            #[trigger] file.row_groups[i],
            terms,
        )
}

/// The column as it is read back from a file to which it was written: with
/// the same values and levels, and clean.
pub open spec fn column_read_back(column: ColumnModel) -> ColumnModel {
    ColumnModel {
        values: column.values,
        def_levels: column.def_levels,
        rep_levels: column.rep_levels,
        is_dirty: false,
    }
}

/// The row group as it is read back from a file to which it was written.
pub open spec fn row_group_read_back(group: RowGroupModel) -> RowGroupModel {
    RowGroupModel {
        metadata: group.metadata,
        columns: Seq::new(group.columns.len(), |j: int| column_read_back(group.columns[j])),
    }
}

/// The file as it is read back after it was written: every column with the
/// values and levels that it had, and clean.
pub open spec fn file_read_back(file: FileModel) -> FileModel {
    FileModel {
        metadata: file.metadata,
        row_groups: Seq::new(
            file.row_groups.len(),
            |i: int| row_group_read_back(file.row_groups[i]),
        ),
    }
}

/// Redaction keeps the shape of a column: it has as many values after as
/// before, of the same physical type, and its levels are the same. So a
/// column with one level of either kind for each value is one afterwards.
/// A column that was dirty stays dirty.
pub proof fn lemma_redaction_keeps_the_shape(
    column: ColumnModel,
    terms: Seq<Seq<u8>>,
    replacement: Seq<u8>,
)
    ensures
        column.is_dirty ==> column.redacted(terms, replacement).is_dirty,
        column.redacted(terms, replacement).values.len() == column.values.len(),
        column.redacted(terms, replacement).values.physical_type()
            == column.values.physical_type(),
        column.redacted(terms, replacement).def_levels == column.def_levels,
        column.redacted(terms, replacement).rep_levels == column.rep_levels,
        column.redacted(terms, replacement).wf() == column.wf(),
{
}

/// Redaction leaves alone what it is not aimed at. A column that is not of
/// byte arrays stays as it is, values, levels and dirty flag. In a column of
/// byte arrays every value in which no term stands keeps its bytes, and so
/// does every value that is not UTF-8 text.
pub proof fn lemma_redaction_spares_the_rest(
    column: ColumnModel,
    terms: Seq<Seq<u8>>,
    replacement: Seq<u8>,
)
    ensures
        !(column.values is ByteArray) ==> column.redacted(terms, replacement) == column,
        column.values is ByteArray ==> {
            &&& column.redacted(terms, replacement).values is ByteArray
            &&& column.redacted(terms, replacement).values->ByteArray_0.len()
                == column.values->ByteArray_0.len()
            &&& forall|i: int|
                0 <= i < column.values->ByteArray_0.len() && !holds_a_term(
                    #[trigger] column.values->ByteArray_0[i],
                    terms,
                ) ==> column.redacted(terms, replacement).values->ByteArray_0[i]
                    == column.values->ByteArray_0[i]
        },
{
    if column.values is ByteArray {
        let rows = column.values->ByteArray_0;
        assert forall|i: int| 0 <= i < rows.len() && !holds_a_term(#[trigger] rows[i], terms) implies redacted_rows(
            rows,
            terms,
            replacement,
        )[i] == rows[i] by {
            lemma_value_matches_iff_holds_a_term(rows[i], terms, replacement);
            if vstd::utf8::valid_utf8(rows[i]) {
                lemma_nothing_found_nothing_changed(rows[i], terms, replacement);
            }
        }
    }
}

/// The redaction of a file is that of each of its columns, in its place. The
/// file has the metadata, the row groups and the columns that it had, in
/// their order, so that what holds of every column after redaction holds of
/// every column of the file.
pub proof fn lemma_file_redaction_keeps_the_layout(
    file: FileModel,
    terms: Seq<Seq<u8>>,
    replacement: Seq<u8>,
)
    ensures
        file.redacted(terms, replacement).metadata == file.metadata,
        file.redacted(terms, replacement).row_groups.len() == file.row_groups.len(),
        forall|i: int|
            0 <= i < file.row_groups.len() ==> {
                &&& (#[trigger] file.redacted(terms, replacement).row_groups[i]).metadata
                    == file.row_groups[i].metadata
                &&& file.redacted(terms, replacement).row_groups[i].columns.len()
                    == file.row_groups[i].columns.len()
            },
        forall|i: int, j: int|
            0 <= i < file.row_groups.len() && 0 <= j < file.row_groups[i].columns.len()
                ==> #[trigger] file.redacted(terms, replacement).row_groups[i].columns[j]
                == file.row_groups[i].columns[j].redacted(terms, replacement),
{
}

/// A column gets dirty exactly where a term stands in one of its values: it
/// is dirty after redaction if it was dirty before or holds a term.
pub proof fn lemma_column_dirty_iff_term(
    column: ColumnModel,
    terms: Seq<Seq<u8>>,
    replacement: Seq<u8>,
)
    ensures
        column.redacted(terms, replacement).is_dirty == (column.is_dirty || column_holds_a_term(
            column,
            terms,
        )),
{
    if column.values is ByteArray {
        let rows = column.values->ByteArray_0;
        assert forall|i: int| 0 <= i < rows.len() implies value_matches(
            #[trigger] rows[i],
            terms,
            replacement,
        ) == holds_a_term(rows[i], terms) by {
            lemma_value_matches_iff_holds_a_term(rows[i], terms, replacement);
        }
        if some_row_matches(rows, terms, replacement) {
            let i = choose|i: int|
                0 <= i < rows.len() && value_matches(#[trigger] rows[i], terms, replacement);
            assert(holds_a_term(rows[i], terms));
        }
        if column_holds_a_term(column, terms) {
            let i = choose|i: int| 0 <= i < rows.len() && holds_a_term(#[trigger] rows[i], terms);
            assert(value_matches(rows[i], terms, replacement));
        }
    }
}

/// A column in which no term stands is the same after redaction.
pub proof fn lemma_column_without_terms_is_untouched(
    column: ColumnModel,
    terms: Seq<Seq<u8>>,
    replacement: Seq<u8>,
)
    requires
        !column_holds_a_term(column, terms),
    ensures
        column.redacted(terms, replacement) == column,
{
    lemma_column_dirty_iff_term(column, terms, replacement);
    lemma_redaction_spares_the_rest(column, terms, replacement);
    if column.values is ByteArray {
        let rows = column.values->ByteArray_0;
        assert(redacted_rows(rows, terms, replacement) =~= rows) by {
            assert forall|i: int| 0 <= i < rows.len() implies redacted_rows(
                rows,
                terms,
                replacement,
            )[i] == rows[i] by {
                assert(!holds_a_term(rows[i], terms));
            }
        }
    }
}

/// A row group is dirty after redaction exactly if it was dirty before or a
/// term stands in one of its columns.
pub proof fn lemma_row_group_dirty_iff_term(
    group: RowGroupModel,
    terms: Seq<Seq<u8>>,
    replacement: Seq<u8>,
)
    ensures
        group.redacted(terms, replacement).is_dirty() == (group.is_dirty()
            || row_group_holds_a_term(group, terms)),
{
    let after = group.redacted(terms, replacement);
    assert forall|j: int| 0 <= j < group.columns.len() implies (#[trigger] after.columns[j]).is_dirty
        == (group.columns[j].is_dirty || column_holds_a_term(group.columns[j], terms)) by {
        lemma_column_dirty_iff_term(group.columns[j], terms, replacement);
    }
    if after.is_dirty() {
        let j = choose|j: int| 0 <= j < after.columns.len() && (#[trigger] after.columns[j]).is_dirty;
        if group.columns[j].is_dirty {
            assert(group.is_dirty());
        } else {
            assert(column_holds_a_term(group.columns[j], terms));
        }
    }
    if group.is_dirty() {
        let j = choose|j: int| 0 <= j < group.columns.len() && (#[trigger] group.columns[j]).is_dirty;
        assert(after.columns[j].is_dirty);
    }
    if row_group_holds_a_term(group, terms) {
        let j = choose|j: int|
            0 <= j < group.columns.len() && column_holds_a_term(#[trigger] group.columns[j], terms);
        assert(after.columns[j].is_dirty);
    }
}

/// The decision to rewrite a file is exact: the file is dirty after
/// redaction exactly if it was dirty before or a term stands in one of its
/// columns.
pub proof fn lemma_file_dirty_iff_term(file: FileModel, terms: Seq<Seq<u8>>, replacement: Seq<u8>)
    ensures
        file.redacted(terms, replacement).is_dirty() == (file.is_dirty() || file_holds_a_term(
            file,
            terms,
        )),
{
    let after = file.redacted(terms, replacement);
    assert forall|i: int| 0 <= i < file.row_groups.len() implies (#[trigger] after.row_groups[i]).is_dirty()
        == (file.row_groups[i].is_dirty() || row_group_holds_a_term(file.row_groups[i], terms)) by {
        lemma_row_group_dirty_iff_term(file.row_groups[i], terms, replacement);
    }
    if after.is_dirty() {
        let i = choose|i: int|
            0 <= i < after.row_groups.len() && (#[trigger] after.row_groups[i]).is_dirty();
        if file.row_groups[i].is_dirty() {
            assert(file.is_dirty());
        } else {
            assert(row_group_holds_a_term(file.row_groups[i], terms));
        }
    }
    if file.is_dirty() {
        let i = choose|i: int|
            0 <= i < file.row_groups.len() && (#[trigger] file.row_groups[i]).is_dirty();
        assert(after.row_groups[i].is_dirty());
    }
    if file_holds_a_term(file, terms) {
        let i = choose|i: int|
            0 <= i < file.row_groups.len() && row_group_holds_a_term(
                #[trigger] file.row_groups[i],
                terms,
            );
        assert(after.row_groups[i].is_dirty());
    }
}

/// A file in which no term stands is the same after redaction, in every
/// value, level and flag, and with the metadata that it had: a file that was
/// clean is clean, and is not written.
pub proof fn lemma_file_without_terms_is_untouched(
    file: FileModel,
    terms: Seq<Seq<u8>>,
    replacement: Seq<u8>,
)
    requires
        !file_holds_a_term(file, terms),
    ensures
        file.redacted(terms, replacement) == file,
        file.redacted(terms, replacement).is_dirty() == file.is_dirty(),
{
    let after = file.redacted(terms, replacement);
    assert forall|i: int| 0 <= i < file.row_groups.len() implies #[trigger] after.row_groups[i]
        == file.row_groups[i] by {
        let group = file.row_groups[i];
        assert(!row_group_holds_a_term(group, terms));
        assert forall|j: int| 0 <= j < group.columns.len() implies #[trigger] redacted_columns(
            group.columns,
            terms,
            replacement,
        )[j] == group.columns[j] by {
            assert(!column_holds_a_term(group.columns[j], terms));
            lemma_column_without_terms_is_untouched(group.columns[j], terms, replacement);
        }
        assert(redacted_columns(group.columns, terms, replacement) =~= group.columns);
    }
    assert(after.row_groups =~= file.row_groups);
}

/// What was read back is clean, and holds a term exactly where what was
/// written held one.
pub proof fn lemma_read_back(file: FileModel, terms: Seq<Seq<u8>>)
    ensures
        !file_read_back(file).is_dirty(),
        file_holds_a_term(file_read_back(file), terms) == file_holds_a_term(file, terms),
{
    let back = file_read_back(file);
    if back.is_dirty() {
        let i = choose|i: int|
            0 <= i < back.row_groups.len() && (#[trigger] back.row_groups[i]).is_dirty();
        let j = choose|j: int|
            0 <= j < back.row_groups[i].columns.len() && (#[trigger] back.row_groups[i].columns[j]).is_dirty;
        assert(false);
    }
    assert forall|i: int| 0 <= i < file.row_groups.len() implies row_group_holds_a_term(
        #[trigger] back.row_groups[i],
        terms,
    ) == row_group_holds_a_term(file.row_groups[i], terms) by {
        let g = file.row_groups[i];
        let b = back.row_groups[i];
        assert forall|j: int| 0 <= j < g.columns.len() implies column_holds_a_term(
            #[trigger] b.columns[j],
            terms,
        ) == column_holds_a_term(g.columns[j], terms) by {}
        if row_group_holds_a_term(b, terms) {
            let j = choose|j: int|
                0 <= j < b.columns.len() && column_holds_a_term(#[trigger] b.columns[j], terms);
            assert(column_holds_a_term(g.columns[j], terms));
        }
        if row_group_holds_a_term(g, terms) {
            let j = choose|j: int|
                0 <= j < g.columns.len() && column_holds_a_term(#[trigger] g.columns[j], terms);
            assert(column_holds_a_term(b.columns[j], terms));
        }
    }
    if file_holds_a_term(back, terms) {
        let i = choose|i: int|
            0 <= i < back.row_groups.len() && row_group_holds_a_term(
                #[trigger] back.row_groups[i],
                terms,
            );
        assert(row_group_holds_a_term(file.row_groups[i], terms));
    }
    if file_holds_a_term(file, terms) {
        let i = choose|i: int|
            0 <= i < file.row_groups.len() && row_group_holds_a_term(
                #[trigger] file.row_groups[i],
                terms,
            );
        assert(row_group_holds_a_term(back.row_groups[i], terms));
    }
}

/// Redacting a second time changes nothing. Where a file was redacted,
/// written and read back, and no term stands in what the first pass left,
/// the second pass with the same terms leaves every column as it is, and
/// clean. A term can stand in what the first pass left only where the
/// replacement brought it in, alone or together with the bytes around it.
pub proof fn lemma_second_redaction_changes_nothing(
    file: FileModel,
    terms: Seq<Seq<u8>>,
    replacement: Seq<u8>,
)
    requires
        !file_holds_a_term(file.redacted(terms, replacement), terms),
    ensures
        file_read_back(file.redacted(terms, replacement)).redacted(terms, replacement)
            == file_read_back(file.redacted(terms, replacement)),
        !file_read_back(file.redacted(terms, replacement)).redacted(terms, replacement).is_dirty(),
{
    let first = file.redacted(terms, replacement);
    lemma_read_back(first, terms);
    lemma_file_without_terms_is_untouched(file_read_back(first), terms, replacement);
}

/// The second pass over a file that was redacted, written and read back
/// leaves it dirty exactly where a term stands in what the first pass left.
pub proof fn lemma_second_redaction_dirty_iff_term_left(
    file: FileModel,
    terms: Seq<Seq<u8>>,
    replacement: Seq<u8>,
)
    ensures
        file_read_back(file.redacted(terms, replacement)).redacted(terms, replacement).is_dirty()
            == file_holds_a_term(file.redacted(terms, replacement), terms),
{
    let first = file.redacted(terms, replacement);
    lemma_read_back(first, terms);
    lemma_file_dirty_iff_term(file_read_back(first), terms, replacement);
}

/// Whether `event` is among `events` and was taken: it is the report on the
/// step that was to be done when it came.
pub open spec fn taken(events: Seq<Event>, event: Event) -> bool {
    exists|i: int|
        0 <= i < events.len() && #[trigger] events[i] == event && State::Read.after_all(
            events.take(i),
        ).expects(event)
}

/// What must have been reported, and taken, for the work on a file to stand
/// in `state`.
pub open spec fn history_of(state: State, events: Seq<Event>) -> bool {
    match state {
        State::Read => !taken(events, Event::ScanDirty),
        State::Scanned => taken(events, Event::ReadOk) && !taken(events, Event::ScanDirty),
        State::CleanSkip => taken(events, Event::ScanClean) && !taken(events, Event::ScanDirty),
        State::DirtyBackup => taken(events, Event::ScanDirty),
        State::Rewriting => taken(events, Event::ScanDirty) && taken(events, Event::BackupOk),
        State::Committing => {
            &&& taken(events, Event::ScanDirty)
            &&& taken(events, Event::BackupOk)
            &&& taken(events, Event::RewriteOk)
        },
        State::Committed => {
            &&& taken(events, Event::ScanDirty)
            &&& taken(events, Event::BackupOk)
            &&& taken(events, Event::RewriteOk)
            &&& taken(events, Event::BackupRemoved)
        },
        State::RollingBack => {
            &&& taken(events, Event::ScanDirty)
            &&& taken(events, Event::BackupOk)
            &&& taken(events, Event::RewriteFailed)
        },
        State::RolledBack => {
            &&& taken(events, Event::ScanDirty)
            &&& taken(events, Event::BackupOk)
            &&& taken(events, Event::RewriteFailed)
            &&& taken(events, Event::RestoreOk)
        },
        State::Failed(e) => match e {
            Error::UnsupportedType => !taken(events, Event::ScanDirty),
            Error::DecodeFailed => !taken(events, Event::ScanDirty),
            Error::BackupFailed => taken(events, Event::ScanDirty) && taken(
                events,
                Event::BackupFailed,
            ),
            Error::RollbackFailed => {
                &&& taken(events, Event::ScanDirty)
                &&& taken(events, Event::BackupOk)
                &&& taken(events, Event::RewriteFailed)
                &&& taken(events, Event::RestoreFailed)
            },
            Error::WriteFailed => false,
        },
    }
}

/// A report that was taken stays taken when further reports follow.
proof fn lemma_taken_stays(events: Seq<Event>, event: Event)
    requires
        events.len() > 0,
        taken(events.drop_last(), event),
    ensures
        taken(events, event),
{
    let earlier = events.drop_last();
    let i = choose|i: int|
        0 <= i < earlier.len() && #[trigger] earlier[i] == event && State::Read.after_all(
            earlier.take(i),
        ).expects(event);
    assert(events.take(i) =~= earlier.take(i));
    assert(events[i] == event);
}

/// The last report is taken where the state before it expects it.
proof fn lemma_last_is_taken(events: Seq<Event>)
    requires
        events.len() > 0,
        State::Read.after_all(events.drop_last()).expects(events.last()),
    ensures
        taken(events, events.last()),
{
    let i = events.len() - 1;
    assert(events.take(i) =~= events.drop_last());
    assert(events[i] == events.last());
}

/// A report that is taken among `events` and is not the last of them was
/// taken before.
proof fn lemma_taken_before(events: Seq<Event>, event: Event)
    requires
        events.len() > 0,
        taken(events, event),
        events.last() != event || !State::Read.after_all(events.drop_last()).expects(event),
    ensures
        taken(events.drop_last(), event),
{
    let earlier = events.drop_last();
    let i = choose|i: int|
        0 <= i < events.len() && #[trigger] events[i] == event && State::Read.after_all(
            events.take(i),
        ).expects(event);
    if i == events.len() - 1 {
        assert(events.take(i) =~= earlier);
    } else {
        assert(events.take(i) =~= earlier.take(i));
        assert(earlier[i] == event);
    }
}

/// Every state that the work on a file reaches has the history that belongs
/// to it, whatever is reported and in whatever order: the steps were done in
/// their order, each behind the success of the one before.
pub proof fn lemma_states_have_their_history(events: Seq<Event>)
    ensures
        history_of(State::Read.after_all(events), events),
    decreases events.len(),
{
    if events.len() > 0 {
        let earlier = events.drop_last();
        let last = events.last();
        lemma_states_have_their_history(earlier);
        let before = State::Read.after_all(earlier);
        assert forall|e: Event| taken(earlier, e) implies taken(events, e) by {
            lemma_taken_stays(events, e);
        }
        if before.expects(last) {
            lemma_last_is_taken(events);
        }
        if taken(events, Event::ScanDirty) && !taken(earlier, Event::ScanDirty) {
            if last != Event::ScanDirty || !before.expects(Event::ScanDirty) {
                lemma_taken_before(events, Event::ScanDirty);
            }
        }
    }
}

/// Nothing is written without a match. As long as no redaction has reported
/// a term, no step that the caller was asked to do, up to now, writes to the
/// file system: no backup is made, and the file keeps its bytes.
pub proof fn lemma_no_write_without_a_match(events: Seq<Event>, upto: int)
    requires
        !taken(events, Event::ScanDirty),
        0 <= upto <= events.len(),
    ensures
        !State::Read.after_all(events.take(upto)).spec_action().touches_disk(),
{
    let earlier = events.take(upto);
    lemma_states_have_their_history(earlier);
    if taken(earlier, Event::ScanDirty) {
        let i = choose|i: int|
            0 <= i < earlier.len() && #[trigger] earlier[i] == Event::ScanDirty
                && State::Read.after_all(earlier.take(i)).expects(Event::ScanDirty);
        assert(events.take(i) =~= earlier.take(i));
        assert(events[i] == Event::ScanDirty);
    }
}

/// A file that is skipped, and one that cannot be read, has had nothing
/// written: where the work ends so, no step that the caller was asked to do
/// on the way writes to the file system.
pub proof fn lemma_skipped_and_unread_files_are_untouched(events: Seq<Event>, upto: int)
    requires
        0 <= upto <= events.len(),
        State::Read.after_all(events).spec_outcome() == Some(Outcome::Skipped)
            || State::Read.after_all(events).spec_outcome() == Some(
            Outcome::Failed(Error::DecodeFailed),
        ) || State::Read.after_all(events).spec_outcome() == Some(
            Outcome::Failed(Error::UnsupportedType),
        ),
    ensures
        !State::Read.after_all(events.take(upto)).spec_action().touches_disk(),
{
    lemma_states_have_their_history(events);
    lemma_no_write_without_a_match(events, upto);
}

/// The steps that write come in their order. The file is written anew only
/// behind a backup that was made; the backup is removed only behind a
/// rewrite that succeeded; the original is restored only behind a rewrite
/// that failed.
pub proof fn lemma_writes_come_in_order(events: Seq<Event>)
    ensures
        State::Read.after_all(events).spec_action() == Action::Rewrite ==> taken(
            events,
            Event::BackupOk,
        ),
        State::Read.after_all(events).spec_action() == Action::RemoveBackup ==> taken(
            events,
            Event::RewriteOk,
        ),
        State::Read.after_all(events).spec_action() == Action::Restore ==> taken(
            events,
            Event::RewriteFailed,
        ),
{
    lemma_states_have_their_history(events);
}

/// A rewrite that fails is rolled back. The caller is asked to restore the
/// original; once that is done the file counts as failed with a write
/// failure, which does not stop the batch. Where the restoring fails too,
/// the failure is that of the rollback, and the batch stops.
pub proof fn lemma_failed_rewrite_is_rolled_back()
    ensures
        State::Rewriting.after(Event::RewriteFailed).spec_action() == Action::Restore,
        State::Rewriting.after(Event::RewriteFailed).after(Event::RestoreOk).spec_outcome()
            == Some(Outcome::Failed(Error::WriteFailed)),
        !Outcome::Failed(Error::WriteFailed).halts_batch(),
        State::Rewriting.after(Event::RewriteFailed).after(Event::RestoreFailed).spec_outcome()
            == Some(Outcome::Failed(Error::RollbackFailed)),
        Outcome::Failed(Error::RollbackFailed).halts_batch(),
{
}

/// A file that cannot be read ends at once, with nothing written, in a
/// failure that does not stop the batch.
pub proof fn lemma_failed_read_stops_one_file_only(cause: Error)
    ensures
        State::Read.after(Event::ReadFailed(cause)).spec_outcome() is Some,
        State::Read.after(Event::ReadFailed(cause)).spec_outcome()->Some_0.is_failure(),
        !State::Read.after(Event::ReadFailed(cause)).spec_outcome()->Some_0.halts_batch(),
        State::Read.after(Event::ReadFailed(cause)).spec_action() == Action::Nothing,
{
}

/// A final state is left by no report.
pub proof fn lemma_final_states_stay(state: State, event: Event)
    requires
        state.spec_outcome() is Some,
    ensures
        state.after(event) == state,
        !state.expects(event),
{
}

/// A batch stops exactly behind a rollback that failed, and fails as a whole
/// exactly where the work on one of its files failed: no other failure keeps
/// the files behind it from being taken up.
pub proof fn lemma_batch_stops_only_on_failed_rollback(outcomes: Seq<Outcome>)
    ensures
        RunModel::start().after_all(outcomes).halted == exists|i: int|
            0 <= i < outcomes.len() && (#[trigger] outcomes[i]).halts_batch(),
        RunModel::start().after_all(outcomes).failed == exists|i: int|
            0 <= i < outcomes.len() && (#[trigger] outcomes[i]).is_failure(),
    decreases outcomes.len(),
{
    if outcomes.len() > 0 {
        let earlier = outcomes.drop_last();
        lemma_batch_stops_only_on_failed_rollback(earlier);
        if exists|i: int| 0 <= i < earlier.len() && (#[trigger] earlier[i]).halts_batch() {
            let i = choose|i: int| 0 <= i < earlier.len() && (#[trigger] earlier[i]).halts_batch();
            assert(outcomes[i].halts_batch());
        }
        if exists|i: int| 0 <= i < earlier.len() && (#[trigger] earlier[i]).is_failure() {
            let i = choose|i: int| 0 <= i < earlier.len() && (#[trigger] earlier[i]).is_failure();
            assert(outcomes[i].is_failure());
        }
        if outcomes.last().halts_batch() {
            assert(outcomes[outcomes.len() - 1].halts_batch());
        }
        if outcomes.last().is_failure() {
            assert(outcomes[outcomes.len() - 1].is_failure());
        }
        if exists|i: int| 0 <= i < outcomes.len() && (#[trigger] outcomes[i]).halts_batch() {
            let i = choose|i: int| 0 <= i < outcomes.len() && (#[trigger] outcomes[i]).halts_batch();
            if i < earlier.len() {
                assert(earlier[i].halts_batch());
            }
        }
        if exists|i: int| 0 <= i < outcomes.len() && (#[trigger] outcomes[i]).is_failure() {
            let i = choose|i: int| 0 <= i < outcomes.len() && (#[trigger] outcomes[i]).is_failure();
            if i < earlier.len() {
                assert(earlier[i].is_failure());
            }
        }
    }
}

} // verus!
