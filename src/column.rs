use vstd::prelude::*;

use crate::bytes::{read_u16_le, u16_le};
use crate::enums::{data_type_of, DataType};
use crate::errors::FerricError;
use crate::index::chunk;

verus! {

/// A column definition from a table header.
#[derive(Clone, Debug)]
pub struct Column {
    /// The column's human-readable name.
    pub name: String,
    /// The one-based position of the column's first byte within a record.
    pub offset: u64,
    /// The number of the column's main index, if it has one.
    pub main_index: Option<u64>,
    /// The number of digits right of the decimal point (numeric columns).
    pub decimal_points: u64,
    /// The number of bytes the column occupies within a record.
    pub length: u64,
    /// The kind of data the column holds.
    pub data_type: DataType,
    /// The number of the table that this column refers to, if any.
    pub related_file: Option<u64>,
    /// The number of the column it refers to in that table, if any.
    pub related_field: Option<u64>,
}

/// The decimal places of a column record: the low nibble of byte 2, for
/// numeric columns only.
pub open spec fn decimal_points_of(s: Seq<u8>) -> int {
    if s[4] == 1 { (s[2] % 16) as int } else { 0 }
}

/// `c` is what the 8-byte column record `s` describes, under `name`.
pub open spec fn column_matches(c: Column, s: Seq<u8>, name: Seq<char>) -> bool {
    &&& column_fields_match(c, s, name)
    &&& c.length == s[3]
}

/// `c` is what the column record `s` describes, leaving its length aside.
pub open spec fn column_fields_match(c: Column, s: Seq<u8>, name: Seq<char>) -> bool {
    &&& c.name@ == name
    &&& c.offset == u16_le(s, 0)
    &&& c.decimal_points == decimal_points_of(s)
    &&& c.data_type == data_type_of(s[4], decimal_points_of(s))
    &&& c.main_index == (if s[2] / 16 > 0 { Some((s[2] / 16) as u64) } else { None })
    &&& c.related_file == (if s[5] > 0 { Some(s[5] as u64) } else { None })
    &&& c.related_field == (if u16_le(s, 6) > 0 { Some(u16_le(s, 6) as u64) } else { None })
}

/// The texts of a list of names.
pub open spec fn names_view(names: Seq<String>) -> Seq<Seq<char>> {
    names.map_values(|s: String| s@)
}

/// `v` is what the column table `s` describes under `names`: one column
/// per record, as many as there are names.
pub open spec fn column_table_matches(v: Seq<Column>, s: Seq<u8>, names: Seq<Seq<char>>) -> bool {
    &&& v.len() == (if s.len() / 8 < names.len() { (s.len() / 8) as int } else { names.len() as int })
    &&& forall|i: int| 0 <= i < v.len() ==> #[trigger] column_matches(v[i], chunk(s, 8, i), names[i])
}

/// The number of column records in a column table that are decoded: all of
/// them, or only as many as there are names when names are given.
pub open spec fn column_count(len: int, names: Option<Seq<String>>) -> int {
    match names {
        Some(n) => if len / 8 < n.len() { len / 8 } else { n.len() as int },
        None => len / 8,
    }
}

/// The name given to column record `i`: name `i` when names are given,
/// else empty.
pub open spec fn name_at(names: Option<Vec<String>>, i: int) -> Seq<char> {
    match names {
        Some(n) => n@[i]@,
        None => Seq::<char>::empty(),
    }
}

impl Column {
    fn decode(data: &[u8], name: String) -> (r: Column)
        requires
            data@.len() >= 8,
        ensures
            column_matches(r, data@, name@),
    {
        let decimal_points: u64 = if data[4] == 1 { (data[2] % 16) as u64 } else { 0 };
        let main: u8 = data[2] / 16;
        let field: u16 = read_u16_le(data, 6);
        Column {
            name,
            offset: read_u16_le(data, 0) as u64,
            main_index: if main > 0 { Some(main as u64) } else { None },
            decimal_points,
            length: data[3] as u64,
            data_type: DataType::from_code(data[4], decimal_points),
            related_file: if data[5] > 0 { Some(data[5] as u64) } else { None },
            related_field: if field > 0 { Some(field as u64) } else { None },
        }
    }

    /// Decodes one 8-byte column record, named `name` (empty when absent).
    pub fn from_bytes(data: &[u8], name: Option<&str>) -> (r: Result<Column, FerricError>)
        ensures
            data@.len() < 8 ==> r == Err::<Column, FerricError>(FerricError::Internal),
            data@.len() >= 8 ==> (r matches Ok(c) && column_matches(
                c,
                data@,
                match name { Some(n) => n@, None => Seq::<char>::empty() },
            )),
    {
        if data.len() < 8 {
            return Err(FerricError::Internal);
        }
        let n: String = match name {
            Some(s) => String::from_str(s),
            None => String::new(),
        };
        Ok(Column::decode(data, n))
    }

    /// Decodes a column table of 8-byte records. With names, record `i`
    /// gets name `i` and records beyond the last name are left out; without,
    /// every record is decoded with an empty name.
    pub fn table_from_bytes(data: &[u8], names: Option<Vec<String>>) -> (r: Result<
        Vec<Column>,
        FerricError,
    >)
        ensures
            names is Some ==> (r matches Ok(v) && column_table_matches(
                v@,
                data@,
                names_view(names->0@),
            )),
            r matches Ok(v) && ({
                let names_view = match names { Some(n) => Some(n@), None => None };
                &&& v@.len() == column_count(data@.len() as int, names_view)
                &&& forall|i: int|
                    0 <= i < v@.len() ==> #[trigger] column_matches(
                        v@[i],
                        chunk(data@, 8, i),
                        name_at(names, i),
                    )
            }),
    {
        let n: usize = data.len();
        let total: usize = n / 8;
        let count: usize = match &names {
            Some(v) => if total < v.len() { total } else { v.len() },
            None => total,
        };
        let mut out: Vec<Column> = Vec::new();
        let mut i: usize = 0;
        while i < count
            invariant
                i <= count,
                count <= total,
                n == data@.len(),
                total == n as int / 8,
                count == column_count(n as int, match names { Some(v) => Some(v@), None => None }),
                out@.len() == i,
                forall|j: int|
                    0 <= j < i ==> #[trigger] column_matches(
                        out@[j],
                        chunk(data@, 8, j),
                        name_at(names, j),
                    ),
            decreases count - i,
        {
            let ghost ii = i as int;
            assert(ii * 8 + 8 <= n) by (nonlinear_arith)
                requires ii < total, total == n as int / 8;
            let start: usize = i * 8;
            let piece = &data[start..start + 8];
            let name: String = match &names {
                Some(v) => v[i].clone(),
                None => String::new(),
            };
            out.push(Column::decode(piece, name));
            i = i + 1;
        }
        proof {
            if names is Some {
                let nv = names_view(names->0@);
                assert forall|j: int| 0 <= j < out@.len() implies #[trigger] column_matches(
                    out@[j],
                    chunk(data@, 8, j),
                    nv[j],
                ) by {
                    assert(column_matches(out@[j], chunk(data@, 8, j), name_at(names, j)));
                }
            }
        }
        Ok(out)
    }
}

} // verus!
