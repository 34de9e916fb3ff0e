use std::collections::HashMap;
use vstd::prelude::*;

use crate::codec::{
    bcd_int_result, date_field, date_from_bytes, decimal_text_from_bcd_bytes, decimal_text_result,
    int_from_bcd_bytes,
};
use crate::column::Column;
use crate::date::Date;
use crate::enums::{DataType, Version};
use vstd::std_specs::iter::IteratorSpec;

use crate::errors::FerricError;
use crate::header::{Header, CURRENT_HEADER_SIZE, LEGACY_HEADER_SIZE};
use crate::text::{ascii_text, string_from_bytes, text_field_ok};

verus! {

broadcast use vstd::std_specs::hash::group_hash_axioms;

/// A value read from one column of a record.
#[derive(Debug, PartialEq)]
pub enum Value {
    Null,
    Bool(bool),
    I64(i64),
    /// A fixed-point number as its decimal text, `"{int}.{frac}"`.
    Decimal(String),
    Str(String),
    Date(Date),
}

/// The mathematical content of a `Value`.
pub enum ValueView {
    Null,
    Bool(bool),
    I64(i64),
    Decimal(Seq<char>),
    Str(Seq<char>),
    Date((int, int, int)),
}

impl View for Value {
    type V = ValueView;

    open spec fn view(&self) -> ValueView {
        match self {
            Value::Null => ValueView::Null,
            Value::Bool(b) => ValueView::Bool(*b),
            Value::I64(v) => ValueView::I64(*v),
            Value::Decimal(s) => ValueView::Decimal(s@),
            Value::Str(s) => ValueView::Str(s@),
            Value::Date(d) => ValueView::Date(d.triple()),
        }
    }
}

impl Value {
    /// A value equal to this one.
    pub fn copy(&self) -> (r: Value)
        ensures
            r@ == self@,
    {
        match self {
            Value::Null => Value::Null,
            Value::Bool(b) => Value::Bool(*b),
            Value::I64(v) => Value::I64(*v),
            Value::Decimal(s) => Value::Decimal(s.clone()),
            Value::Str(s) => Value::Str(s.clone()),
            Value::Date(d) => Value::Date(*d),
        }
    }
}

/// The values of one record, in column order.
#[derive(Debug, PartialEq)]
pub struct Row {
    pub data: Vec<Value>,
}

impl View for Row {
    type V = Seq<ValueView>;

    open spec fn view(&self) -> Seq<ValueView> {
        self.data@.map_values(|v: Value| v@)
    }
}

impl Row {
    pub fn len(&self) -> (r: usize)
        ensures
            r == self@.len(),
    {
        self.data.len()
    }

    pub fn is_empty(&self) -> (r: bool)
        ensures
            r == (self@.len() == 0),
    {
        self.data.len() == 0
    }

    /// The values in column order.
    pub fn iter(&self) -> (r: std::slice::Iter<'_, Value>)
        ensures
            IteratorSpec::remaining(&r) == self.data@.as_ref(),
    {
        proof {
            broadcast use vstd::std_specs::slice::axiom_spec_slice_iter;
        }
        self.data.as_slice().iter()
    }

    /// The value in column `i`, if there is one.
    pub fn get(&self, i: usize) -> (r: Option<&Value>)
        ensures
            i < self@.len() ==> (r matches Some(v) && v@ == self@[i as int]),
            i >= self@.len() ==> r is None,
    {
        if i < self.data.len() {
            Some(&self.data[i])
        } else {
            None
        }
    }

    /// A row equal to this one.
    pub fn copy(&self) -> (r: Row)
        ensures
            r@ == self@,
    {
        let mut out: Vec<Value> = Vec::new();
        let mut i: usize = 0;
        while i < self.data.len()
            invariant
                i <= self.data@.len(),
                out@.map_values(|v: Value| v@) == self@.subrange(0, i as int),
            decreases self.data@.len() - i,
        {
            let v = self.data[i].copy();
            let ghost prev = out@;
            out.push(v);
            assert(out@.map_values(|v: Value| v@) =~= prev.map_values(|v: Value| v@).push(v@));
            i = i + 1;
            assert(self@.subrange(0, i as int) =~= self@.subrange(0, i - 1).push(self@[i - 1]));
        }
        assert(self@.subrange(0, self@.len() as int) =~= self@);
        Row { data: out }
    }
}

/// What one field of a record decodes to under its column's data type.
pub open spec fn field_value(c: Column, f: Seq<u8>) -> Result<ValueView, FerricError> {
    match c.data_type {
        DataType::Ascii => Ok(ValueView::Str(ascii_text(f))),
        DataType::Int => match bcd_int_result(f, true) {
            Ok(v) => Ok(ValueView::I64(v)),
            Err(e) => Err(e),
        },
        DataType::Float => match decimal_text_result(f, c.decimal_points as nat) {
            Ok(t) => Ok(ValueView::Decimal(t)),
            Err(e) => Err(e),
        },
        DataType::Date => match date_field(f) {
            Some(t) => Ok(ValueView::Date(t)),
            None => Ok(ValueView::Null),
        },
        DataType::Text => if text_field_ok(f) {
            Ok(ValueView::Str(ascii_text(f.subrange(2, f.len() as int))))
        } else {
            Err(FerricError::TextDecoding)
        },
        _ => Ok(ValueView::Null),
    }
}

/// Whether column `c` lies within a record of `len` bytes (its offset is
/// one-based).
pub open spec fn column_in_record(c: Column, len: int) -> bool {
    c.offset >= 1 && c.offset - 1 + c.length <= len
}

/// What column `c` of the record `rec` decodes to.
pub open spec fn column_value(c: Column, rec: Seq<u8>) -> Result<ValueView, FerricError> {
    if !column_in_record(c, rec.len() as int) {
        Err(FerricError::Internal)
    } else {
        field_value(c, rec.subrange(c.offset - 1, c.offset - 1 + c.length))
    }
}

/// The first `k` columns of the record `rec` decoded, or the first
/// column's failure.
pub open spec fn record_values(cols: Seq<Column>, rec: Seq<u8>, k: int) -> Result<
    Seq<ValueView>,
    FerricError,
>
    decreases k,
{
    if k <= 0 {
        Ok(Seq::empty())
    } else {
        match record_values(cols, rec, k - 1) {
            Err(e) => Err(e),
            Ok(vs) => match column_value(cols[k - 1], rec) {
                Err(e) => Err(e),
                Ok(v) => Ok(vs.push(v)),
            },
        }
    }
}

/// What a whole record decodes to under the columns `cols`.
pub open spec fn record_result(cols: Seq<Column>, rec: Seq<u8>) -> Result<
    Seq<ValueView>,
    FerricError,
> {
    record_values(cols, rec, cols.len() as int)
}

/// The record that a record number designates among `count` records:
/// negative numbers count from the end.
pub open spec fn normalized_record(n: int, count: int) -> Option<int> {
    let i = if n < 0 { count + n } else { n };
    if 0 <= i < count { Some(i) } else { None }
}

/// The size of the header region that precedes the records.
pub open spec fn header_size(v: Version) -> int {
    match v {
        Version::V23B => LEGACY_HEADER_SIZE as int,
        Version::V30 => CURRENT_HEADER_SIZE as int,
        Version::Unknown => 0,
    }
}

/// The outcome of storing `row` as record `index` in a cache `rows`: the
/// cache afterwards, and the row handed back. A row already cached stays.
pub open spec fn stored(rows: Map<u64, Row>, index: u64, row: Row) -> (Map<u64, Row>, Seq<ValueView>) {
    if rows.contains_key(index) {
        (rows, rows[index]@)
    } else {
        (rows.insert(index, row), row@)
    }
}

/// Once a prefix of the columns fails, every longer prefix fails the same way.
proof fn lemma_record_error_persists(cols: Seq<Column>, rec: Seq<u8>, k: int, j: int)
    requires
        k <= j,
        record_values(cols, rec, k) is Err,
    ensures
        record_values(cols, rec, j) == record_values(cols, rec, k),
    decreases j - k,
{
    if k < j {
        lemma_record_error_persists(cols, rec, k, j - 1);
    }
}

fn field_value_exec(c: &Column, f: &[u8]) -> (r: Result<Value, FerricError>)
    ensures
        match field_value(*c, f@) {
            Ok(v) => r matches Ok(x) && x@ == v,
            Err(e) => r == Err::<Value, FerricError>(e),
        },
{
    match c.data_type {
        DataType::Ascii => match string_from_bytes(f, Some(false)) {
            Ok(s) => Ok(Value::Str(s)),
            Err(e) => Err(e),
        },
        DataType::Int => match int_from_bcd_bytes(f, Some(true)) {
            Ok(v) => Ok(Value::I64(v)),
            Err(e) => Err(e),
        },
        DataType::Float => match decimal_text_from_bcd_bytes(f, Some(c.decimal_points)) {
            Ok(s) => Ok(Value::Decimal(s)),
            Err(e) => Err(e),
        },
        DataType::Date => match date_from_bytes(f) {
            Ok(Some(d)) => Ok(Value::Date(d)),
            _ => Ok(Value::Null),
        },
        DataType::Text => match string_from_bytes(f, Some(true)) {
            Ok(s) => Ok(Value::Str(s)),
            Err(e) => Err(e),
        },
        _ => Ok(Value::Null),
    }
}

/// One column as the SQL engine sees it.
#[derive(Clone, Debug)]
pub struct ColumnDef {
    pub name: String,
    pub data_type: DataType,
}

/// A table's shape as the SQL engine sees it: its name and columns.
/// Index definitions are not part of it.
#[derive(Clone, Debug)]
pub struct Schema {
    pub table_name: String,
    pub column_defs: Vec<ColumnDef>,
}

/// `s` describes a table named `name` with columns `cols`.
pub open spec fn schema_matches(s: Schema, name: Seq<char>, cols: Seq<Column>) -> bool {
    &&& s.table_name@ == name
    &&& s.column_defs@.len() == cols.len()
    &&& forall|i: int|
        0 <= i < cols.len() ==> (#[trigger] s.column_defs@[i]).name@ == cols[i].name@
            && s.column_defs@[i].data_type == cols[i].data_type
}

/// A table file: its decoded header and a cache of the records decoded so far.
pub struct DataFlexTable {
    /// The table's header.
    pub header: Header,
    /// Decoded records by record index.
    pub rows: HashMap<u64, Row>,
}

impl DataFlexTable {
    /// Every cached row is a record of the table with one value per column.
    pub open spec fn wf(&self) -> bool {
        forall|k: u64|
            #[trigger] self.rows@.contains_key(k) ==> k < self.header.record_count
                && self.rows@[k]@.len() == self.header.columns@.len()
    }

    /// A table over `header` with nothing cached yet.
    pub fn from_header(header: Header) -> (r: DataFlexTable)
        ensures
            r.header == header,
            r.rows@ == Map::<u64, Row>::empty(),
            r.wf(),
    {
        DataFlexTable { header, rows: HashMap::new() }
    }

    /// The number of records.
    pub fn len(&self) -> (r: u64)
        ensures
            r == self.header.record_count,
    {
        self.header.record_count
    }

    pub fn is_empty(&self) -> (r: bool)
        ensures
            r == (self.header.record_count == 0),
    {
        self.header.record_count == 0
    }

    /// The record index that `record_number` designates; negative numbers
    /// count from the end. Out of range is a not-found error.
    pub fn record_index(&self, record_number: i64) -> (r: Result<u64, FerricError>)
        ensures
            match normalized_record(record_number as int, self.header.record_count as int) {
                Some(i) => r == Ok::<u64, FerricError>(i as u64),
                None => r == Err::<u64, FerricError>(FerricError::NotFound),
            },
    {
        let count = self.header.record_count;
        if record_number >= 0 {
            let i = record_number as u64;
            if i < count {
                Ok(i)
            } else {
                Err(FerricError::NotFound)
            }
        } else {
            let back: u64 = if record_number == i64::MIN {
                9223372036854775808u64
            } else {
                (-record_number) as u64
            };
            if back <= count {
                Ok(count - back)
            } else {
                Err(FerricError::NotFound)
            }
        }
    }

    /// The byte offset of record `index` in the table file. Tables with
    /// filler bytes per block, and headers of unknown layout, are not
    /// supported.
    pub fn record_offset(&self, index: u64) -> (r: Result<u64, FerricError>)
        ensures
            self.header.fill_bytes_per_block > 0 || self.header.version == Version::Unknown ==> r
                == Err::<u64, FerricError>(FerricError::NotSupported),
            self.header.fill_bytes_per_block == 0 && self.header.version != Version::Unknown ==> {
                let at = header_size(self.header.version) + index * self.header.record_length;
                if at <= u64::MAX {
                    r == Ok::<u64, FerricError>(at as u64)
                } else {
                    r == Err::<u64, FerricError>(FerricError::Internal)
                }
            },
    {
        if self.header.fill_bytes_per_block > 0 {
            return Err(FerricError::NotSupported);
        }
        let base: u64 = match self.header.version {
            Version::V23B => LEGACY_HEADER_SIZE as u64,
            Version::V30 => CURRENT_HEADER_SIZE as u64,
            Version::Unknown => {
                return Err(FerricError::NotSupported);
            },
        };
        match index.checked_mul(self.header.record_length) {
            Some(span) => match base.checked_add(span) {
                Some(at) => Ok(at),
                None => Err(FerricError::Internal),
            },
            None => {
                assert(index * self.header.record_length > u64::MAX);
                Err(FerricError::Internal)
            },
        }
    }

    /// Decodes one record's bytes, column by column; the first column that
    /// fails to decode, or lies outside the record, fails the whole record.
    pub fn record_from_bytes(&self, record_data: &[u8]) -> (r: Result<Row, FerricError>)
        ensures
            match record_result(self.header.columns@, record_data@) {
                Ok(vs) => r matches Ok(row) && row@ == vs,
                Err(e) => r == Err::<Row, FerricError>(e),
            },
    {
        let cols = &self.header.columns;
        let n = cols.len();
        let mut out: Vec<Value> = Vec::new();
        let mut k: usize = 0;
        assert(out@.map_values(|v: Value| v@) =~= Seq::<ValueView>::empty());
        while k < n
            invariant
                k <= n,
                n == cols@.len(),
                cols@ == self.header.columns@,
                record_values(cols@, record_data@, k as int) == Ok::<Seq<ValueView>, FerricError>(
                    out@.map_values(|v: Value| v@),
                ),
            decreases n - k,
        {
            let c = &cols[k];
            let len = record_data.len() as u64;
            if c.offset < 1 || c.length > len || c.offset - 1 > len - c.length {
                proof {
                    lemma_record_error_persists(cols@, record_data@, k + 1, n as int);
                }
                return Err(FerricError::Internal);
            }
            let start = (c.offset - 1) as usize;
            let end = start + c.length as usize;
            let v = match field_value_exec(c, &record_data[start..end]) {
                Ok(v) => v,
                Err(e) => {
                    proof {
                        lemma_record_error_persists(cols@, record_data@, k + 1, n as int);
                    }
                    return Err(e);
                },
            };
            let ghost prev = out@;
            out.push(v);
            assert(out@.map_values(|v: Value| v@) =~= prev.map_values(|v: Value| v@).push(v@));
            k = k + 1;
        }
        Ok(Row { data: out })
    }

    /// The table's schema: its file's root name and its columns.
    pub fn schema(&self) -> (r: Schema)
        ensures
            schema_matches(r, self.header.file_root_name@, self.header.columns@),
    {
        let cols = &self.header.columns;
        let mut defs: Vec<ColumnDef> = Vec::new();
        let mut i: usize = 0;
        while i < cols.len()
            invariant
                i <= cols@.len(),
                cols@ == self.header.columns@,
                defs@.len() == i,
                forall|j: int|
                    0 <= j < i ==> (#[trigger] defs@[j]).name@ == cols@[j].name@
                        && defs@[j].data_type == cols@[j].data_type,
            decreases cols@.len() - i,
        {
            defs.push(ColumnDef { name: cols[i].name.clone(), data_type: cols[i].data_type });
            i = i + 1;
        }
        Schema { table_name: self.header.file_root_name.clone(), column_defs: defs }
    }

    /// Appending records is not supported: the format is read-only here.
    pub fn append_record(&self, record: Row) -> (r: Result<(), FerricError>)
        ensures
            r == Err::<(), FerricError>(FerricError::NotSupported),
    {
        Err(FerricError::NotSupported)
    }

    /// Updating records is not supported: the format is read-only here.
    pub fn update_record(&self, record_number: i64, record: Row) -> (r: Result<(), FerricError>)
        ensures
            r == Err::<(), FerricError>(FerricError::NotSupported),
    {
        Err(FerricError::NotSupported)
    }

    /// The cached row of record `index`, if it has been decoded.
    pub fn cached_record(&self, index: u64) -> (r: Option<Row>)
        ensures
            self.rows@.contains_key(index) ==> (r matches Some(row) && row@ == self.rows@[index]@),
            !self.rows@.contains_key(index) ==> r is None,
    {
        match self.rows.get(&index) {
            Some(row) => Some(row.copy()),
            None => None,
        }
    }

    /// Stores a decoded row as record `index` and hands back the cached row:
    /// a row stored earlier for the same index stays and is the one handed
    /// back. The index must be a record of the table and the row must have
    /// one value per column.
    pub fn cache_record(&mut self, index: u64, row: Row) -> (r: Result<Row, FerricError>)
        requires
            old(self).wf(),
        ensures
            final(self).wf(),
            final(self).header == old(self).header,
            index >= old(self).header.record_count ==> r == Err::<Row, FerricError>(
                FerricError::NotFound,
            ) && final(self).rows@ == old(self).rows@,
            index < old(self).header.record_count && row@.len() != old(
                self,
            ).header.columns@.len() ==> r == Err::<Row, FerricError>(FerricError::Internal)
                && final(self).rows@ == old(self).rows@,
            index < old(self).header.record_count && row@.len() == old(
                self,
            ).header.columns@.len() ==> ({
                let (m, v) = stored(old(self).rows@, index, row);
                &&& final(self).rows@ == m
                &&& r matches Ok(x) && x@ == v
            }),
    {
        if index >= self.header.record_count {
            return Err(FerricError::NotFound);
        }
        if row.len() != self.header.columns.len() {
            return Err(FerricError::Internal);
        }
        match self.rows.get(&index) {
            Some(existing) => {
                return Ok(existing.copy());
            },
            None => {},
        }
        let out = row.copy();
        self.rows.insert(index, row);
        Ok(out)
    }
}

} // verus!

verus! {

/// Record number -1 designates the same record as `count - 1`, and
/// `-(count + 1)` designates none: counting from the end stops at the first
/// record.
pub proof fn lemma_record_numbers_from_end(count: u64)
    ensures
        normalized_record(-1, count as int) == normalized_record(count - 1, count as int),
        normalized_record(-(count + 1), count as int) is None,
{
}

/// Two callers that decode the same record and store it one after the
/// other are handed rows with the same values, whichever stores first, and
/// the cache ends up holding that record once.
pub proof fn lemma_concurrent_stores_agree(rows: Map<u64, Row>, index: u64, first: Row, second: Row)
    requires
        first@ == second@,
    ensures
        ({
            let (m1, a) = stored(rows, index, first);
            let (m2, b) = stored(m1, index, second);
            &&& a == b
            &&& m2 == m1
            &&& m2.contains_key(index)
            &&& m2[index]@ == a
        }),
        ({
            let (m1, a) = stored(rows, index, second);
            let (m2, b) = stored(m1, index, first);
            &&& a == b
            &&& m2 == m1
            &&& m2[index]@ == a
        }),
        ({
            let (m1, a) = stored(rows, index, first);
            let (n1, b) = stored(rows, index, second);
            a == b
        }),
{
}

/// A record either decodes to one value per column or fails as a whole:
/// a caller never receives a partly decoded row.
pub proof fn lemma_record_complete(cols: Seq<Column>, rec: Seq<u8>)
    ensures
        record_result(cols, rec) matches Ok(vs) ==> vs.len() == cols.len(),
{
    lemma_record_values_len(cols, rec, cols.len() as int);
}

proof fn lemma_record_values_len(cols: Seq<Column>, rec: Seq<u8>, k: int)
    requires
        k >= 0,
    ensures
        record_values(cols, rec, k) matches Ok(vs) ==> vs.len() == k,
    decreases k,
{
    if k > 0 {
        lemma_record_values_len(cols, rec, k - 1);
    }
}

} // verus!

verus! {

/// A text column whose length prefix disagrees with the number of
/// characters that follow fails with a text decoding error, rather than
/// giving truncated or padded text.
pub proof fn lemma_text_length_mismatch_fails(c: Column, f: Seq<u8>)
    requires
        c.data_type == DataType::Text,
        f.len() >= 4,
        ascii_text(f.subrange(2, f.len() as int)).len() != crate::bytes::u16_le(f, 0),
    ensures
        field_value(c, f) == Err::<ValueView, FerricError>(FerricError::TextDecoding),
{
}

} // verus!

verus! {

/// A record whose columns before `k` decode, and whose column `k` is a text
/// column within the record whose length prefix disagrees with the number
/// of characters that follow, fails as a whole with a text decoding error.
pub proof fn lemma_text_mismatch_fails_record(cols: Seq<Column>, rec: Seq<u8>, k: int)
    requires
        0 <= k < cols.len(),
        record_values(cols, rec, k) is Ok,
        cols[k].data_type == DataType::Text,
        column_in_record(cols[k], rec.len() as int),
        ({
            let f = rec.subrange(cols[k].offset - 1, cols[k].offset - 1 + cols[k].length);
            f.len() >= 4 && ascii_text(f.subrange(2, f.len() as int)).len() != crate::bytes::u16_le(
                f,
                0,
            )
        }),
    ensures
        record_result(cols, rec) == Err::<Seq<ValueView>, FerricError>(FerricError::TextDecoding),
{
    let f = rec.subrange(cols[k].offset - 1, cols[k].offset - 1 + cols[k].length);
    lemma_text_length_mismatch_fails(cols[k], f);
    assert(record_values(cols, rec, k + 1) == Err::<Seq<ValueView>, FerricError>(
        FerricError::TextDecoding,
    ));
    lemma_record_error_persists(cols, rec, k + 1, cols.len() as int);
}

} // verus!
