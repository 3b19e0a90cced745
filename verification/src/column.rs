//! One column of one row group: its decoded values, one physical type at a
//! time, beside the definition and repetition levels that give the rows
//! their shape.

use crate::error::Error;
use crate::redact::{
    no_empty_term, redact_value, redacted_value, term_bytes, value_matches,
};
use vstd::prelude::*;
use vstd::utf8::encode_utf8;

verus! {

/// The physical encodings that a column chunk can announce.
#[derive(Clone, Copy, Debug, PartialEq, Eq, Structural)]
pub enum PhysicalType {
    Boolean,
    Int32,
    Int64,
    Int96,
    Float,
    Double,
    ByteArray,
    FixedLenByteArray,
}

impl PhysicalType {
    /// Whether a typed column exists for this physical type.
    pub open spec fn spec_is_supported(self) -> bool {
        self != PhysicalType::FixedLenByteArray
    }

    /// Whether a typed column exists for this physical type.
    #[verifier::when_used_as_spec(spec_is_supported)]
    pub fn is_supported(self) -> (supported: bool)
        ensures
            supported == self.spec_is_supported(),
    {
        match self {
            PhysicalType::FixedLenByteArray => false,
            _ => true,
        }
    }
}

/// A 96-bit value, kept as the three 32-bit words in which it is stored.
#[derive(Clone, Copy, Debug, PartialEq, Eq, Structural)]
pub struct Int96 {
    pub elem0: u32,
    pub elem1: u32,
    pub elem2: u32,
}

/// The decoded values of one column. The two floating-point types are kept as
/// the bit patterns of their values, which is what has to survive unchanged.
#[derive(Clone, Debug, PartialEq, Eq)]
pub enum ColumnValues {
    Bool(Vec<bool>),
    Int32(Vec<i32>),
    Int64(Vec<i64>),
    Int96(Vec<Int96>),
    Float(Vec<u32>),
    Double(Vec<u64>),
    ByteArray(Vec<Vec<u8>>),
}

/// What a [`ColumnValues`] holds, as mathematical sequences.
pub ghost enum ColumnData {
    Bool(Seq<bool>),
    Int32(Seq<i32>),
    Int64(Seq<i64>),
    Int96(Seq<Int96>),
    Float(Seq<u32>),
    Double(Seq<u64>),
    ByteArray(Seq<Seq<u8>>),
}

/// The byte strings that a vector of byte vectors holds.
pub open spec fn byte_rows(rows: Seq<Vec<u8>>) -> Seq<Seq<u8>> {
    Seq::new(rows.len(), |i: int| rows[i]@)
}

/// `s` filled up at its end with `fill` to the length `n`; unchanged where it
/// is that long already.
pub open spec fn padded<T>(s: Seq<T>, n: nat, fill: T) -> Seq<T> {
    if s.len() >= n {
        s
    } else {
        s + Seq::new((n - s.len()) as nat, |i: int| fill)
    }
}

impl ColumnData {
    /// The number of values.
    pub open spec fn len(self) -> nat {
        match self {
            ColumnData::Bool(v) => v.len(),
            ColumnData::Int32(v) => v.len(),
            ColumnData::Int64(v) => v.len(),
            ColumnData::Int96(v) => v.len(),
            ColumnData::Float(v) => v.len(),
            ColumnData::Double(v) => v.len(),
            ColumnData::ByteArray(v) => v.len(),
        }
    }

    /// The physical type of the values.
    pub open spec fn physical_type(self) -> PhysicalType {
        match self {
            ColumnData::Bool(_) => PhysicalType::Boolean,
            ColumnData::Int32(_) => PhysicalType::Int32,
            ColumnData::Int64(_) => PhysicalType::Int64,
            ColumnData::Int96(_) => PhysicalType::Int96,
            ColumnData::Float(_) => PhysicalType::Float,
            ColumnData::Double(_) => PhysicalType::Double,
            ColumnData::ByteArray(_) => PhysicalType::ByteArray,
        }
    }

    /// The values filled up to `n` of them with the zero of their type: `false`,
    /// the number 0, the bit pattern 0, the empty byte string.
    pub open spec fn padded(self, n: nat) -> ColumnData {
        match self {
            ColumnData::Bool(v) => ColumnData::Bool(padded(v, n, false)),
            ColumnData::Int32(v) => ColumnData::Int32(padded(v, n, 0i32)),
            ColumnData::Int64(v) => ColumnData::Int64(padded(v, n, 0i64)),
            ColumnData::Int96(v) => ColumnData::Int96(
                padded(v, n, Int96 { elem0: 0, elem1: 0, elem2: 0 }),
            ),
            ColumnData::Float(v) => ColumnData::Float(padded(v, n, 0u32)),
            ColumnData::Double(v) => ColumnData::Double(padded(v, n, 0u64)),
            ColumnData::ByteArray(v) => ColumnData::ByteArray(padded(v, n, Seq::<u8>::empty())),
        }
    }

    /// The values of `self` followed by those of `tail`, where both have the
    /// same physical type.
    pub open spec fn concat(self, tail: ColumnData) -> ColumnData {
        match (self, tail) {
            (ColumnData::Bool(a), ColumnData::Bool(b)) => ColumnData::Bool(a + b),
            (ColumnData::Int32(a), ColumnData::Int32(b)) => ColumnData::Int32(a + b),
            (ColumnData::Int64(a), ColumnData::Int64(b)) => ColumnData::Int64(a + b),
            (ColumnData::Int96(a), ColumnData::Int96(b)) => ColumnData::Int96(a + b),
            (ColumnData::Float(a), ColumnData::Float(b)) => ColumnData::Float(a + b),
            (ColumnData::Double(a), ColumnData::Double(b)) => ColumnData::Double(a + b),
            (ColumnData::ByteArray(a), ColumnData::ByteArray(b)) => ColumnData::ByteArray(a + b),
            _ => self,
        }
    }

    /// No values of the given physical type. For a type without a typed
    /// column the result is arbitrary.
    pub open spec fn empty(physical_type: PhysicalType) -> ColumnData {
        match physical_type {
            PhysicalType::Boolean => ColumnData::Bool(Seq::empty()),
            PhysicalType::Int32 => ColumnData::Int32(Seq::empty()),
            PhysicalType::Int64 => ColumnData::Int64(Seq::empty()),
            PhysicalType::Int96 => ColumnData::Int96(Seq::empty()),
            PhysicalType::Float => ColumnData::Float(Seq::empty()),
            PhysicalType::Double => ColumnData::Double(Seq::empty()),
            _ => ColumnData::ByteArray(Seq::empty()),
        }
    }
}

impl View for ColumnValues {
    type V = ColumnData;

    open spec fn view(&self) -> ColumnData {
        match *self {
            ColumnValues::Bool(v) => ColumnData::Bool(v@),
            ColumnValues::Int32(v) => ColumnData::Int32(v@),
            ColumnValues::Int64(v) => ColumnData::Int64(v@),
            ColumnValues::Int96(v) => ColumnData::Int96(v@),
            ColumnValues::Float(v) => ColumnData::Float(v@),
            ColumnValues::Double(v) => ColumnData::Double(v@),
            ColumnValues::ByteArray(v) => ColumnData::ByteArray(byte_rows(v@)),
        }
    }
}

/// Fills `v` up at its end with `fill` to the length `n`.
fn pad<T: Copy>(v: &mut Vec<T>, n: usize, fill: T)
    ensures
        final(v)@ == padded(old(v)@, n as nat, fill),
{
    while v.len() < n
        invariant
            old(v)@.len() <= v@.len(),
            v@.len() <= n || v@ == old(v)@,
            v@ == old(v)@ + Seq::new((v@.len() - old(v)@.len()) as nat, |i: int| fill),
        decreases n - v.len(),
    {
        v.push(fill);
        assert(v@ =~= old(v)@ + Seq::new((v@.len() - old(v)@.len()) as nat, |i: int| fill));
    }
    assert(v@ =~= padded(old(v)@, n as nat, fill));
}

/// Fills `v` up at its end with empty byte strings to the length `n`.
fn pad_rows(v: &mut Vec<Vec<u8>>, n: usize)
    ensures
        byte_rows(final(v)@) == padded(byte_rows(old(v)@), n as nat, Seq::<u8>::empty()),
{
    while v.len() < n
        invariant
            old(v)@.len() <= v@.len(),
            v@.len() <= n || v@ == old(v)@,
            byte_rows(v@) == byte_rows(old(v)@) + Seq::new(
                (v@.len() - old(v)@.len()) as nat,
                |i: int| Seq::<u8>::empty(),
            ),
        decreases n - v.len(),
    {
        let ghost before = v@;
        let row: Vec<u8> = Vec::new();
        v.push(row);
        assert(byte_rows(v@) =~= byte_rows(before).push(Seq::<u8>::empty()));
        assert(byte_rows(v@) =~= byte_rows(old(v)@) + Seq::new(
            (v@.len() - old(v)@.len()) as nat,
            |i: int| Seq::<u8>::empty(),
        ));
    }
    assert(byte_rows(v@) =~= padded(byte_rows(old(v)@), n as nat, Seq::<u8>::empty()));
}

impl ColumnValues {
    /// The number of values.
    pub fn len(&self) -> (n: usize)
        ensures
            n == self@.len(),
    {
        match self {
            ColumnValues::Bool(v) => v.len(),
            ColumnValues::Int32(v) => v.len(),
            ColumnValues::Int64(v) => v.len(),
            ColumnValues::Int96(v) => v.len(),
            ColumnValues::Float(v) => v.len(),
            ColumnValues::Double(v) => v.len(),
            ColumnValues::ByteArray(v) => v.len(),
        }
    }

    /// The physical type of the values.
    pub fn physical_type(&self) -> (physical_type: PhysicalType)
        ensures
            physical_type == self@.physical_type(),
    {
        match self {
            ColumnValues::Bool(_) => PhysicalType::Boolean,
            ColumnValues::Int32(_) => PhysicalType::Int32,
            ColumnValues::Int64(_) => PhysicalType::Int64,
            ColumnValues::Int96(_) => PhysicalType::Int96,
            ColumnValues::Float(_) => PhysicalType::Float,
            ColumnValues::Double(_) => PhysicalType::Double,
            ColumnValues::ByteArray(_) => PhysicalType::ByteArray,
        }
    }

    /// No values of the given physical type; `None` for a type without a
    /// typed column.
    pub fn empty(physical_type: PhysicalType) -> (values: Option<ColumnValues>)
        ensures
            values is Some <==> physical_type.is_supported(),
            values is Some ==> values->Some_0@ == ColumnData::empty(physical_type),
    {
        match physical_type {
            PhysicalType::Boolean => Some(ColumnValues::Bool(Vec::new())),
            PhysicalType::Int32 => Some(ColumnValues::Int32(Vec::new())),
            PhysicalType::Int64 => Some(ColumnValues::Int64(Vec::new())),
            PhysicalType::Int96 => Some(ColumnValues::Int96(Vec::new())),
            PhysicalType::Float => Some(ColumnValues::Float(Vec::new())),
            PhysicalType::Double => Some(ColumnValues::Double(Vec::new())),
            PhysicalType::ByteArray => {
                let rows: Vec<Vec<u8>> = Vec::new();
                assert(byte_rows(rows@) =~= Seq::<Seq<u8>>::empty());
                Some(ColumnValues::ByteArray(rows))
            },
            PhysicalType::FixedLenByteArray => None,
        }
    }

    /// Moves the values of `tail` behind those of `self`. Values of another
    /// physical type are not taken, and `self` stays as it is.
    pub fn append(&mut self, tail: ColumnValues) -> (taken: bool)
        ensures
            taken == (old(self)@.physical_type() == tail@.physical_type()),
            final(self)@ == old(self)@.concat(tail@),
    {
        match self {
            ColumnValues::Bool(head) => match tail {
                ColumnValues::Bool(mut tail) => {
                    head.append(&mut tail);
                    true
                },
                _ => false,
            },
            ColumnValues::Int32(head) => match tail {
                ColumnValues::Int32(mut tail) => {
                    head.append(&mut tail);
                    true
                },
                _ => false,
            },
            ColumnValues::Int64(head) => match tail {
                ColumnValues::Int64(mut tail) => {
                    head.append(&mut tail);
                    true
                },
                _ => false,
            },
            ColumnValues::Int96(head) => match tail {
                ColumnValues::Int96(mut tail) => {
                    head.append(&mut tail);
                    true
                },
                _ => false,
            },
            ColumnValues::Float(head) => match tail {
                ColumnValues::Float(mut tail) => {
                    head.append(&mut tail);
                    true
                },
                _ => false,
            },
            ColumnValues::Double(head) => match tail {
                ColumnValues::Double(mut tail) => {
                    head.append(&mut tail);
                    true
                },
                _ => false,
            },
            ColumnValues::ByteArray(head) => match tail {
                ColumnValues::ByteArray(mut tail) => {
                    let ghost first = byte_rows(head@);
                    let ghost second = byte_rows(tail@);
                    head.append(&mut tail);
                    assert(byte_rows(head@) =~= first + second);
                    true
                },
                _ => false,
            },
        }
    }

    /// Fills the values up to `n` of them with the zero of their type.
    fn pad_to(&mut self, n: usize)
        ensures
            final(self)@ == old(self)@.padded(n as nat),
    {
        match self {
            ColumnValues::Bool(v) => pad(v, n, false),
            ColumnValues::Int32(v) => pad(v, n, 0i32),
            ColumnValues::Int64(v) => pad(v, n, 0i64),
            ColumnValues::Int96(v) => pad(v, n, Int96 { elem0: 0, elem1: 0, elem2: 0 }),
            ColumnValues::Float(v) => pad(v, n, 0u32),
            ColumnValues::Double(v) => pad(v, n, 0u64),
            ColumnValues::ByteArray(v) => pad_rows(v, n),
        }
    }
}

/// One column of one row group.
#[derive(Clone, Debug, PartialEq, Eq)]
pub struct ParquetColumn {
    values: ColumnValues,
    def_levels: Vec<i16>,
    rep_levels: Vec<i16>,
    is_dirty: bool,
}

/// What a [`ParquetColumn`] holds.
pub ghost struct ColumnModel {
    pub values: ColumnData,
    pub def_levels: Seq<i16>,
    pub rep_levels: Seq<i16>,
    pub is_dirty: bool,
}

impl ColumnModel {
    /// There is one definition level and one repetition level for each value.
    pub open spec fn wf(self) -> bool {
        &&& self.values.len() == self.def_levels.len()
        &&& self.values.len() == self.rep_levels.len()
    }

    /// The values and levels of the column, as its writer gets them.
    pub open spec fn batch(self) -> BatchModel {
        BatchModel {
            values: self.values,
            def_levels: self.def_levels,
            rep_levels: self.rep_levels,
        }
    }

    /// The column after redaction. Only byte-array values are looked at; the
    /// column gets dirty where a term is found in one of them, and stays
    /// dirty where it was.
    pub open spec fn redacted(self, terms: Seq<Seq<u8>>, replacement: Seq<u8>) -> ColumnModel {
        match self.values {
            ColumnData::ByteArray(rows) => ColumnModel {
                values: ColumnData::ByteArray(redacted_rows(rows, terms, replacement)),
                def_levels: self.def_levels,
                rep_levels: self.rep_levels,
                is_dirty: self.is_dirty || some_row_matches(rows, terms, replacement),
            },
            _ => self,
        }
    }
}

/// Every value of a byte-array column after redaction, each in its place.
pub open spec fn redacted_rows(rows: Seq<Seq<u8>>, terms: Seq<Seq<u8>>, replacement: Seq<u8>) -> Seq<
    Seq<u8>,
> {
    Seq::new(rows.len(), |i: int| redacted_value(rows[i], terms, replacement))
}

/// Whether redaction finds a term in one of the values.
pub open spec fn some_row_matches(rows: Seq<Seq<u8>>, terms: Seq<Seq<u8>>, replacement: Seq<u8>) -> bool {
    exists|i: int| 0 <= i < rows.len() && value_matches(#[trigger] rows[i], terms, replacement)
}

/// What [`ParquetColumn::read`] makes of the values and levels that a column
/// reader delivered. The type must have a typed column. The values must be of
/// that type, and neither they nor the levels may be more than the number
/// recorded for the column; what is missing up to that number is filled in.
pub open spec fn read_outcome(
    physical_type: PhysicalType,
    num_values: nat,
    values: ColumnData,
    def_levels: Seq<i16>,
    rep_levels: Seq<i16>,
) -> Result<ColumnModel, Error> {
    if !physical_type.is_supported() {
        Err(Error::UnsupportedType)
    } else if values.physical_type() != physical_type || values.len() > num_values
        || def_levels.len() > num_values || rep_levels.len() > num_values {
        Err(Error::DecodeFailed)
    } else {
        Ok(
            ColumnModel {
                values: values.padded(num_values),
                def_levels: padded(def_levels, num_values, 0i16),
                rep_levels: padded(rep_levels, num_values, 0i16),
                is_dirty: false,
            },
        )
    }
}

/// What a column hands to the writer of its slot: all its values and levels,
/// in one batch.
pub struct ColumnBatch<'a> {
    pub values: &'a ColumnValues,
    pub def_levels: &'a Vec<i16>,
    pub rep_levels: &'a Vec<i16>,
}

/// What a [`ColumnBatch`] holds.
pub ghost struct BatchModel {
    pub values: ColumnData,
    pub def_levels: Seq<i16>,
    pub rep_levels: Seq<i16>,
}

impl<'a> View for ColumnBatch<'a> {
    type V = BatchModel;

    open spec fn view(&self) -> BatchModel {
        BatchModel {
            values: self.values@,
            def_levels: self.def_levels@,
            rep_levels: self.rep_levels@,
        }
    }
}

impl View for ParquetColumn {
    type V = ColumnModel;

    closed spec fn view(&self) -> ColumnModel {
        ColumnModel {
            values: self.values@,
            def_levels: self.def_levels@,
            rep_levels: self.rep_levels@,
            is_dirty: self.is_dirty,
        }
    }
}

impl ParquetColumn {
    /// Builds the typed column of one column chunk from what its reader
    /// delivered: the values that are not null, and the levels where the
    /// column has any. Values and levels are filled up to `num_values`, the
    /// number that the file records for the chunk, so that the three run in
    /// step. The column starts clean.
    pub fn read(
        physical_type: PhysicalType,
        num_values: usize,
        values: ColumnValues,
        def_levels: Vec<i16>,
        rep_levels: Vec<i16>,
    ) -> (column: Result<ParquetColumn, Error>)
        ensures
            match column {
                Ok(c) => read_outcome(
                    physical_type,
                    num_values as nat,
                    values@,
                    def_levels@,
                    rep_levels@,
                ) == Ok::<ColumnModel, Error>(c@),
                Err(e) => read_outcome(
                    physical_type,
                    num_values as nat,
                    values@,
                    def_levels@,
                    rep_levels@,
                ) == Err::<ColumnModel, Error>(e),
            },
            column is Ok ==> column->Ok_0@.wf() && column->Ok_0@.values.len() == num_values,
    {
        if !physical_type.is_supported() {
            return Err(Error::UnsupportedType);
        }
        if values.physical_type() != physical_type || values.len() > num_values || def_levels.len()
            > num_values || rep_levels.len() > num_values {
            return Err(Error::DecodeFailed);
        }
        let mut values = values;
        let mut def_levels = def_levels;
        let mut rep_levels = rep_levels;
        values.pad_to(num_values);
        pad(&mut def_levels, num_values, 0i16);
        pad(&mut rep_levels, num_values, 0i16);
        Ok(ParquetColumn { values, def_levels, rep_levels, is_dirty: false })
    }

    /// Hands out the values and levels for the writer of the column's slot,
    /// which announces the physical type `writer_type`. A writer of another
    /// type than the column's cannot take them.
    pub fn write(&self, writer_type: PhysicalType) -> (batch: Result<ColumnBatch<'_>, Error>)
        ensures
            match batch {
                Ok(b) => writer_type == self@.values.physical_type() && b@ == self@.batch(),
                Err(e) => e == Error::WriteFailed && writer_type != self@.values.physical_type(),
            },
    {
        if self.values.physical_type() != writer_type {
            return Err(Error::WriteFailed);
        }
        Ok(
            ColumnBatch {
                values: &self.values,
                def_levels: &self.def_levels,
                rep_levels: &self.rep_levels,
            },
        )
    }

    /// Replaces every search term, in the order given, by `replace` in each
    /// byte-array value that is UTF-8 text, and marks the column dirty where
    /// a term was found. Columns of other types, values that are not text,
    /// and the levels are left as they are.
    pub fn remove_values(&mut self, search_values: Vec<String>, replace: String)
        requires
            no_empty_term(search_values@),
        ensures
            final(self)@ == old(self)@.redacted(term_bytes(search_values@), encode_utf8(replace@)),
            final(self)@.wf() == old(self)@.wf(),
            final(self)@.values.len() == old(self)@.values.len(),
    {
        self.redact(&search_values, &replace);
    }

    /// [`ParquetColumn::remove_values`] with the terms and the replacement
    /// lent, for a caller that goes on to further columns with them.
    pub fn redact(&mut self, search_values: &Vec<String>, replace: &String)
        requires
            no_empty_term(search_values@),
        ensures
            final(self)@ == old(self)@.redacted(term_bytes(search_values@), encode_utf8(replace@)),
            final(self)@.wf() == old(self)@.wf(),
            final(self)@.values.len() == old(self)@.values.len(),
    {
        let changed = redact_rows(&mut self.values, search_values, replace);
        if changed {
            self.is_dirty = true;
        }
    }

    /// The decoded values.
    pub fn values(&self) -> (values: &ColumnValues)
        ensures
            values@ == self@.values,
    {
        &self.values
    }

    /// The definition levels, one for each value.
    pub fn def_levels(&self) -> (levels: &Vec<i16>)
        ensures
            levels@ == self@.def_levels,
    {
        &self.def_levels
    }

    /// The repetition levels, one for each value.
    pub fn rep_levels(&self) -> (levels: &Vec<i16>)
        ensures
            levels@ == self@.rep_levels,
    {
        &self.rep_levels
    }

    /// Whether a value of the column was touched since the column was read.
    pub fn is_dirty(&self) -> (dirty: bool)
        ensures
            dirty == self@.is_dirty,
    {
        self.is_dirty
    }

    /// The number of values, which is that of the levels of either kind.
    pub fn len(&self) -> (n: usize)
        ensures
            n == self@.values.len(),
    {
        self.values.len()
    }

    /// The physical type of the values.
    pub fn physical_type(&self) -> (physical_type: PhysicalType)
        ensures
            physical_type == self@.values.physical_type(),
    {
        self.values.physical_type()
    }

    /// Whether there is one level of either kind for each value.
    pub fn is_well_formed(&self) -> (well_formed: bool)
        ensures
            well_formed == self@.wf(),
    {
        self.values.len() == self.def_levels.len() && self.values.len() == self.rep_levels.len()
    }
}

/// Redacts the values in place where they are byte arrays, and says whether a
/// term was found in one of them.
fn redact_rows(values: &mut ColumnValues, search_values: &Vec<String>, replace: &String) -> (changed:
    bool)
    requires
        no_empty_term(search_values@),
    ensures
        match old(values)@ {
            ColumnData::ByteArray(rows) => {
                &&& final(values)@ == ColumnData::ByteArray(
                    redacted_rows(rows, term_bytes(search_values@), encode_utf8(replace@)),
                )
                &&& changed == some_row_matches(
                    rows,
                    term_bytes(search_values@),
                    encode_utf8(replace@),
                )
            },
            _ => final(values)@ == old(values)@ && !changed,
        },
{
    let ghost terms = term_bytes(search_values@);
    let ghost replacement = encode_utf8(replace@);
    match values {
        ColumnValues::ByteArray(rows) => {
            let ghost before = byte_rows(rows@);
            let mut changed: bool = false;
            let mut i: usize = 0;
            while i < rows.len()
                invariant
                    i <= rows.len(),
                    rows@.len() == before.len(),
                    no_empty_term(search_values@),
                    terms == term_bytes(search_values@),
                    replacement == encode_utf8(replace@),
                    forall|j: int| 0 <= j < i ==> rows@[j]@ == redacted_value(before[j], terms, replacement),
                    forall|j: int| i <= j < rows@.len() ==> rows@[j]@ == before[j],
                    changed == exists|j: int|
                        0 <= j < i && value_matches(#[trigger] before[j], terms, replacement),
                decreases rows.len() - i,
            {
                let redacted = redact_value(&rows[i], search_values, replace);
                match redacted {
                    Some(value) => {
                        rows.set(i, value);
                        changed = true;
                        assert(value_matches(before[i as int], terms, replacement));
                    },
                    None => {},
                }
                i += 1;
            }
            assert(byte_rows(rows@) =~= redacted_rows(before, terms, replacement));
            changed
        },
        _ => false,
    }
}

} // verus!
