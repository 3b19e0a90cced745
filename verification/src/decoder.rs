//! The reading of one column chunk, step by step: how many values to ask of
//! the chunk's reader, what to make of each batch that it delivers, and when
//! the chunk has been read to its end.

use crate::column::{read_outcome, ColumnData, ColumnModel, ColumnValues, ParquetColumn, PhysicalType};
use crate::error::Error;
use vstd::prelude::*;

verus! {

/// The state of the reading of one column chunk.
pub struct ColumnDecoder {
    expected: usize,
    values: ColumnValues,
    def_levels: Vec<i16>,
    rep_levels: Vec<i16>,
    finished: bool,
}

/// What a [`ColumnDecoder`] holds.
pub ghost struct DecoderModel {
    /// The number of values that the file records for the chunk.
    pub expected: nat,
    /// The values delivered so far.
    pub values: ColumnData,
    /// The definition levels delivered so far.
    pub def_levels: Seq<i16>,
    /// The repetition levels delivered so far.
    pub rep_levels: Seq<i16>,
    /// Whether the reader has signalled the end of the chunk.
    pub finished: bool,
}

impl DecoderModel {
    /// The state before anything was asked of the reader. A chunk for which
    /// no value is recorded is at its end from the start.
    pub open spec fn start(physical_type: PhysicalType, expected: nat) -> DecoderModel {
        DecoderModel {
            expected,
            values: ColumnData::empty(physical_type),
            def_levels: Seq::empty(),
            rep_levels: Seq::empty(),
            finished: expected == 0,
        }
    }

    /// Whether a batch can be taken in this state: the chunk is not at its
    /// end, the values are of the chunk's type, and with the batch there are
    /// no more values or levels than the chunk was recorded to have.
    pub open spec fn takes(self, values: ColumnData, def_levels: Seq<i16>, rep_levels: Seq<i16>) -> bool {
        &&& !self.finished
        &&& values.physical_type() == self.values.physical_type()
        &&& self.values.len() + values.len() <= self.expected
        &&& self.def_levels.len() + def_levels.len() <= self.expected
        &&& self.rep_levels.len() + rep_levels.len() <= self.expected
    }

    /// The state after a batch that can be taken. A batch with fewer values
    /// than were asked for is the reader's signal that the chunk has ended.
    pub open spec fn after(self, values: ColumnData, def_levels: Seq<i16>, rep_levels: Seq<i16>) -> DecoderModel {
        DecoderModel {
            expected: self.expected,
            values: self.values.concat(values),
            def_levels: self.def_levels + def_levels,
            rep_levels: self.rep_levels + rep_levels,
            finished: values.len() < self.expected,
        }
    }

    /// What [`ColumnDecoder::finish`] returns in this state.
    pub open spec fn outcome(self) -> Result<ColumnModel, Error> {
        if self.finished {
            read_outcome(
                self.values.physical_type(),
                self.expected,
                self.values,
                self.def_levels,
                self.rep_levels,
            )
        } else {
            Err(Error::DecodeFailed)
        }
    }
}

impl View for ColumnDecoder {
    type V = DecoderModel;

    closed spec fn view(&self) -> DecoderModel {
        DecoderModel {
            expected: self.expected as nat,
            values: self.values@,
            def_levels: self.def_levels@,
            rep_levels: self.rep_levels@,
            finished: self.finished,
        }
    }
}

impl ColumnDecoder {
    /// Begins the reading of a column chunk whose reader announces
    /// `physical_type` and for which the file records `num_values` values.
    /// A type without a typed column is refused before anything is read.
    pub fn new(physical_type: PhysicalType, num_values: usize) -> (decoder: Result<
        ColumnDecoder,
        Error,
    >)
        ensures
            match decoder {
                Ok(d) => physical_type.is_supported() && d@ == DecoderModel::start(
                    physical_type,
                    num_values as nat,
                ),
                Err(e) => e == Error::UnsupportedType && !physical_type.is_supported(),
            },
    {
        match ColumnValues::empty(physical_type) {
            Some(values) => Ok(
                ColumnDecoder {
                    expected: num_values,
                    values,
                    def_levels: Vec::new(),
                    rep_levels: Vec::new(),
                    finished: num_values == 0,
                },
            ),
            None => Err(Error::UnsupportedType),
        }
    }

    /// How many values to ask of the reader next, or `None` once the chunk
    /// has been read to its end.
    pub fn next_request(&self) -> (request: Option<usize>)
        ensures
            request == if self@.finished {
                None
            } else {
                Some(self@.expected as usize)
            },
    {
        if self.finished {
            None
        } else {
            Some(self.expected)
        }
    }

    /// Takes one batch from the reader: the values that are not null, and the
    /// levels where the column has any. A batch that cannot be taken fails
    /// the chunk and leaves the state as it was.
    pub fn accept(&mut self, values: ColumnValues, def_levels: Vec<i16>, rep_levels: Vec<i16>) -> (taken:
        Result<(), Error>)
        ensures
            match taken {
                Ok(_) => old(self)@.takes(values@, def_levels@, rep_levels@) && final(self)@ == old(
                    self,
                )@.after(values@, def_levels@, rep_levels@),
                Err(e) => e == Error::DecodeFailed && !old(self)@.takes(
                    values@,
                    def_levels@,
                    rep_levels@,
                ) && final(self)@ == old(self)@,
            },
    {
        if self.finished || values.physical_type() != self.values.physical_type() {
            return Err(Error::DecodeFailed);
        }
        let batch_len = values.len();
        if batch_len > self.expected || self.values.len() > self.expected - batch_len {
            return Err(Error::DecodeFailed);
        }
        if def_levels.len() > self.expected || self.def_levels.len() > self.expected
            - def_levels.len() {
            return Err(Error::DecodeFailed);
        }
        if rep_levels.len() > self.expected || self.rep_levels.len() > self.expected
            - rep_levels.len() {
            return Err(Error::DecodeFailed);
        }
        let mut def_levels = def_levels;
        let mut rep_levels = rep_levels;
        self.values.append(values);
        self.def_levels.append(&mut def_levels);
        self.rep_levels.append(&mut rep_levels);
        self.finished = batch_len < self.expected;
        Ok(())
    }

    /// The column that was read. A chunk whose reader has not signalled the
    /// end fails.
    pub fn finish(self) -> (column: Result<ParquetColumn, Error>)
        ensures
            match column {
                Ok(c) => self@.outcome() == Ok::<ColumnModel, Error>(c@),
                Err(e) => self@.outcome() == Err::<ColumnModel, Error>(e),
            },
    {
        if !self.finished {
            return Err(Error::DecodeFailed);
        }
        let physical_type = self.values.physical_type();
        ParquetColumn::read(
            physical_type,
            self.expected,
            self.values,
            self.def_levels,
            self.rep_levels,
        )
    }
}

/// A chunk is read to its end with the second batch at the latest: when the
/// first batch had as many values as were asked for, the next one that can be
/// taken has none, which is the signal of the end.
pub proof fn lemma_second_batch_ends_the_chunk(
    physical_type: PhysicalType,
    expected: nat,
    first: (ColumnData, Seq<i16>, Seq<i16>),
    second: (ColumnData, Seq<i16>, Seq<i16>),
)
    requires
        DecoderModel::start(physical_type, expected).takes(first.0, first.1, first.2),
        DecoderModel::start(physical_type, expected).after(first.0, first.1, first.2).takes(
            second.0,
            second.1,
            second.2,
        ),
    ensures
        DecoderModel::start(physical_type, expected).after(first.0, first.1, first.2).after(
            second.0,
            second.1,
            second.2,
        ).finished,
{
}

/// A chunk that was read to its end by batches that could be taken gives its
/// column: the decoder holds no more values and levels than were recorded,
/// and [`ColumnDecoder::finish`] succeeds with a column in which values and
/// levels run in step.
pub proof fn lemma_taken_batches_give_a_column(
    decoder: DecoderModel,
    values: ColumnData,
    def_levels: Seq<i16>,
    rep_levels: Seq<i16>,
)
    requires
        decoder.takes(values, def_levels, rep_levels),
        decoder.after(values, def_levels, rep_levels).finished,
    ensures
        decoder.after(values, def_levels, rep_levels).outcome() is Ok,
        decoder.after(values, def_levels, rep_levels).outcome()->Ok_0.wf(),
        decoder.after(values, def_levels, rep_levels).outcome()->Ok_0.values.len()
            == decoder.expected,
{
}

} // verus!
